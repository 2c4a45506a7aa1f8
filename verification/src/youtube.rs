//! Records of the alternative video-listing client: a video as its API
//! reports it, and the client's key.  The HTTP calls themselves live
//! outside this crate.

use vstd::prelude::*;

verus! {

pub struct Video {
    title: String,
    description: String,
    yt_id: String,
    link: String,
    published_at: String,
    image: String,
    channel: String,
}

pub struct VideoView {
    pub title: Seq<char>,
    pub description: Seq<char>,
    pub yt_id: Seq<char>,
    pub link: Seq<char>,
    pub published_at: Seq<char>,
    pub image: Seq<char>,
    pub channel: Seq<char>,
}

impl View for Video {
    type V = VideoView;

    closed spec fn view(&self) -> VideoView {
        VideoView {
            title: self.title@,
            description: self.description@,
            yt_id: self.yt_id@,
            link: self.link@,
            published_at: self.published_at@,
            image: self.image@,
            channel: self.channel@,
        }
    }
}

impl Video {
    pub fn new(
        title: &str,
        description: &str,
        yt_id: &str,
        link: &str,
        published_at: &str,
        image: &str,
        channel: &str,
    ) -> (r: Self)
        ensures
            r@ == (VideoView {
                title: title@,
                description: description@,
                yt_id: yt_id@,
                link: link@,
                published_at: published_at@,
                image: image@,
                channel: channel@,
            }),
    {
        Video {
            title: title.to_owned(),
            description: description.to_owned(),
            yt_id: yt_id.to_owned(),
            link: link.to_owned(),
            published_at: published_at.to_owned(),
            image: image.to_owned(),
            channel: channel.to_owned(),
        }
    }
}

pub struct YouTube {
    key: String,
}

pub struct YouTubeView {
    pub key: Seq<char>,
}

impl View for YouTube {
    type V = YouTubeView;

    closed spec fn view(&self) -> YouTubeView {
        YouTubeView { key: self.key@ }
    }
}

impl YouTube {
    pub fn new(key: &str) -> (r: Self)
        ensures
            r@.key == key@,
    {
        YouTube { key: key.to_owned() }
    }

    pub fn key(&self) -> (r: &str)
        ensures
            r@ == self@.key,
    {
        self.key.as_str()
    }
}

} // verus!
