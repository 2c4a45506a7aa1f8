//! The external fetch tool's boundary: the tool's configuration, the
//! candidate-video records it reports, and the parser for its
//! line-delimited enumeration output.
//!
//! The tool emits one self-contained JSON record per line.  Running the
//! tool is input/output and happens outside this crate; everything that
//! can be said about a record as a function of its bytes is said here.

use vstd::prelude::*;

use crate::dates::valid_compact_date;
use crate::error::Error;

verus! {

/// How the external tool is invoked: the executable path and the cookie
/// file handed to it for access-restricted sources.
pub struct Ytdlp {
    path: String,
    cookies: String,
}

pub struct YtdlpView {
    pub path: Seq<char>,
    pub cookies: Seq<char>,
}

impl View for Ytdlp {
    type V = YtdlpView;

    closed spec fn view(&self) -> YtdlpView {
        YtdlpView { path: self.path@, cookies: self.cookies@ }
    }
}

impl Ytdlp {
    pub fn new(path: &str, cookies: &str) -> (r: Self)
        ensures
            r@.path == path@,
            r@.cookies == cookies@,
    {
        Ytdlp { path: path.to_owned(), cookies: cookies.to_owned() }
    }

    /// The executable path, for the driver that spawns the tool.
    pub fn path(&self) -> (r: &str)
        ensures
            r@ == self@.path,
    {
        self.path.as_str()
    }

    /// The cookie-file path, for the driver that spawns the tool.
    pub fn cookies(&self) -> (r: &str)
        ensures
            r@ == self@.cookies,
    {
        self.cookies.as_str()
    }
}

/// One candidate video as the enumeration tool reports it.
#[derive(Debug, Clone)]
pub struct YtVideo {
    pub id: String,
    pub title: String,
    pub description: String,
    pub thumbnail: String,
    pub original_url: String,
    pub webpage_url: String,
    /// Eight-digit `YYYYMMDD` upload date.
    pub upload_date: String,
    pub duration_string: String,
}

// ------------------------------------------------------------------
// Parsing the tool's enumeration output.
//
// The output is one JSON record per line.  Splitting into lines is this
// crate's own logic and is verified; reading a string field out of one
// JSON record is done by serde_json behind the trusted wrapper below.
// ------------------------------------------------------------------

/// The string at a top-level key of a JSON record, when the record parses
/// as a JSON object and the key holds a string — a pure function of the
/// record's bytes and the key.
pub uninterp spec fn json_string_field_of(line: Seq<u8>, key: Seq<char>) -> Option<Seq<char>>;

/// Relies on serde_json (`from_slice`, `Value::get`, `Value::as_str`):
/// which string a top-level key of a JSON record holds is a function of
/// the record's bytes and the key alone.
#[verifier::external_body]
fn json_string_field(line: &Vec<u8>, key: &str) -> (r: Option<String>)
    ensures
        r matches Some(s) ==> json_string_field_of(line@, key@) == Some(s@),
        r is None ==> json_string_field_of(line@, key@) is None,
{
    let value: serde_json::Value = match serde_json::from_slice(line) {
        Ok(v) => v,
        Err(_) => return None,
    };
    match value.get(key) {
        Some(field) => field.as_str().map(|s| s.to_string()),
        None => None,
    }
}

/// A record the worker accepts: all eight fields present as strings, and
/// the upload date an existing eight-digit calendar date.
pub open spec fn line_ok(line: Seq<u8>) -> bool {
    &&& json_string_field_of(line, "id"@) is Some
    &&& json_string_field_of(line, "title"@) is Some
    &&& json_string_field_of(line, "description"@) is Some
    &&& json_string_field_of(line, "thumbnail"@) is Some
    &&& json_string_field_of(line, "original_url"@) is Some
    &&& json_string_field_of(line, "webpage_url"@) is Some
    &&& json_string_field_of(line, "duration_string"@) is Some
    &&& match json_string_field_of(line, "upload_date"@) {
        Option::Some(d) => valid_compact_date(d),
        Option::None => false,
    }
}

/// The candidate built from a record: every field is the string the
/// record holds at the key of the same name.
pub open spec fn video_matches_line(line: Seq<u8>, v: YtVideo) -> bool {
    &&& json_string_field_of(line, "id"@) == Some(v.id@)
    &&& json_string_field_of(line, "title"@) == Some(v.title@)
    &&& json_string_field_of(line, "description"@) == Some(v.description@)
    &&& json_string_field_of(line, "thumbnail"@) == Some(v.thumbnail@)
    &&& json_string_field_of(line, "original_url"@) == Some(v.original_url@)
    &&& json_string_field_of(line, "webpage_url"@) == Some(v.webpage_url@)
    &&& json_string_field_of(line, "upload_date"@) == Some(v.upload_date@)
    &&& json_string_field_of(line, "duration_string"@) == Some(v.duration_string@)
    &&& valid_compact_date(v.upload_date@)
}

/// Parse one record.  Returns the candidate exactly when the record is
/// acceptable, `None` otherwise.
fn parse_record(line: &Vec<u8>) -> (r: Option<YtVideo>)
    ensures
        r is Some <==> line_ok(line@),
        r matches Some(v) ==> video_matches_line(line@, v),
{
    let id = match json_string_field(line, "id") {
        Option::Some(s) => s,
        Option::None => {
            return Option::None;
        },
    };
    let title = match json_string_field(line, "title") {
        Option::Some(s) => s,
        Option::None => {
            return Option::None;
        },
    };
    let description = match json_string_field(line, "description") {
        Option::Some(s) => s,
        Option::None => {
            return Option::None;
        },
    };
    let thumbnail = match json_string_field(line, "thumbnail") {
        Option::Some(s) => s,
        Option::None => {
            return Option::None;
        },
    };
    let original_url = match json_string_field(line, "original_url") {
        Option::Some(s) => s,
        Option::None => {
            return Option::None;
        },
    };
    let webpage_url = match json_string_field(line, "webpage_url") {
        Option::Some(s) => s,
        Option::None => {
            return Option::None;
        },
    };
    let duration_string = match json_string_field(line, "duration_string") {
        Option::Some(s) => s,
        Option::None => {
            return Option::None;
        },
    };
    let upload_date = match json_string_field(line, "upload_date") {
        Option::Some(s) => s,
        Option::None => {
            return Option::None;
        },
    };
    match crate::dates::parse_date(upload_date.as_str()) {
        Option::Some(_) => {},
        Option::None => {
            return Option::None;
        },
    }
    Option::Some(
        YtVideo {
            id,
            title,
            description,
            thumbnail,
            original_url,
            webpage_url,
            upload_date,
            duration_string,
        },
    )
}

/// The output split at every newline byte; a trailing newline yields a
/// final empty segment, and the empty output is one empty segment.
pub open spec fn split_lines_spec(s: Seq<u8>) -> Seq<Seq<u8>>
    decreases s.len(),
{
    if s.len() == 0 {
        seq![Seq::<u8>::empty()]
    } else if s[0] == 10 {
        seq![Seq::<u8>::empty()] + split_lines_spec(s.drop_first())
    } else {
        let rest = split_lines_spec(s.drop_first());
        seq![seq![s[0]] + rest[0]] + rest.drop_first()
    }
}

proof fn lemma_split_nonempty(s: Seq<u8>)
    ensures
        split_lines_spec(s).len() >= 1,
    decreases s.len(),
{
    if s.len() > 0 {
        lemma_split_nonempty(s.drop_first());
    }
}

/// Appending one byte either opens a fresh empty segment (a newline) or
/// extends the last segment (any other byte).
proof fn lemma_split_snoc(s: Seq<u8>, b: u8)
    ensures
        b == 10 ==> split_lines_spec(s.push(b)) == split_lines_spec(s).push(Seq::<u8>::empty()),
        b != 10 ==> split_lines_spec(s.push(b)) == split_lines_spec(s).update(
            split_lines_spec(s).len() - 1,
            split_lines_spec(s).last().push(b),
        ),
    decreases s.len(),
{
    reveal_with_fuel(split_lines_spec, 3);
    lemma_split_nonempty(s);
    let t = s.push(b);
    if s.len() == 0 {
        assert(t =~= seq![b]);
        assert(t.drop_first() =~= Seq::<u8>::empty());
        if b == 10 {
            assert(split_lines_spec(t) =~~= split_lines_spec(s).push(Seq::<u8>::empty()));
        } else {
            assert(split_lines_spec(t) =~~= split_lines_spec(s).update(
                split_lines_spec(s).len() - 1,
                split_lines_spec(s).last().push(b),
            ));
        }
    } else {
        lemma_split_snoc(s.drop_first(), b);
        lemma_split_nonempty(s.drop_first());
        assert(t[0] == s[0]);
        assert(t.drop_first() =~= s.drop_first().push(b));
        let rest = split_lines_spec(s.drop_first());
        let restt = split_lines_spec(t.drop_first());
        if s[0] == 10 {
            assert(split_lines_spec(s) == seq![Seq::<u8>::empty()] + rest);
            assert(split_lines_spec(t) == seq![Seq::<u8>::empty()] + restt);
            if b == 10 {
                assert(restt == rest.push(Seq::<u8>::empty()));
                assert(seq![Seq::<u8>::empty()] + rest.push(Seq::<u8>::empty())
                    =~~= (seq![Seq::<u8>::empty()] + rest).push(Seq::<u8>::empty()));
            } else {
                assert(restt == rest.update(rest.len() - 1, rest.last().push(b)));
                assert(seq![Seq::<u8>::empty()] + rest.update(rest.len() - 1, rest.last().push(b))
                    =~~= (seq![Seq::<u8>::empty()] + rest).update(
                    (seq![Seq::<u8>::empty()] + rest).len() - 1,
                    (seq![Seq::<u8>::empty()] + rest).last().push(b),
                ));
            }
        } else {
            assert(split_lines_spec(s) == seq![seq![s[0]] + rest[0]] + rest.drop_first());
            assert(split_lines_spec(t) == seq![seq![t[0]] + restt[0]] + restt.drop_first());
            if b == 10 {
                assert(restt == rest.push(Seq::<u8>::empty()));
                assert(restt[0] == rest[0]);
                assert(restt.drop_first() =~~= rest.drop_first().push(Seq::<u8>::empty()));
                assert(seq![seq![s[0]] + rest[0]] + rest.drop_first().push(Seq::<u8>::empty())
                    =~~= (seq![seq![s[0]] + rest[0]] + rest.drop_first()).push(
                    Seq::<u8>::empty(),
                ));
            } else {
                assert(restt == rest.update(rest.len() - 1, rest.last().push(b)));
                if rest.len() == 1 {
                    assert(restt[0] == rest[0].push(b));
                    assert(restt.drop_first() =~~= rest.drop_first());
                    assert(split_lines_spec(t) =~~= split_lines_spec(s).update(
                        split_lines_spec(s).len() - 1,
                        split_lines_spec(s).last().push(b),
                    ));
                } else {
                    assert(restt[0] == rest[0]);
                    assert(restt.drop_first() =~~= rest.drop_first().update(
                        rest.len() - 2,
                        rest.last().push(b),
                    ));
                    assert(split_lines_spec(t) =~~= split_lines_spec(s).update(
                        split_lines_spec(s).len() - 1,
                        split_lines_spec(s).last().push(b),
                    ));
                }
            }
        }
    }
}

/// The views of a list of byte vectors.
pub open spec fn seg_views(ss: Seq<Vec<u8>>) -> Seq<Seq<u8>> {
    Seq::new(ss.len(), |i: int| ss[i]@)
}

/// Split the output at newline bytes.
fn split_lines(out: &Vec<u8>) -> (r: Vec<Vec<u8>>)
    ensures
        seg_views(r@) == split_lines_spec(out@),
{
    let mut segs: Vec<Vec<u8>> = Vec::new();
    let mut cur: Vec<u8> = Vec::new();
    let n = out.len();
    let mut i: usize = 0;
    while i < n
        invariant
            i <= n == out@.len(),
            split_lines_spec(out@.take(i as int)) == seg_views(segs@).push(cur@),
        decreases n - i,
    {
        let b = out[i];
        proof {
            assert(out@.take(i + 1 as int) =~= out@.take(i as int).push(b));
            lemma_split_snoc(out@.take(i as int), b);
        }
        if b == 10 {
            segs.push(cur);
            cur = Vec::new();
            proof {
                assert(split_lines_spec(out@.take(i + 1 as int)) =~~= seg_views(segs@).push(
                    cur@,
                ));
            }
        } else {
            cur.push(b);
            proof {
                assert(split_lines_spec(out@.take(i + 1 as int)) =~~= seg_views(segs@).push(
                    cur@,
                ));
            }
        }
        i = i + 1;
    }
    proof {
        assert(out@.take(n as int) =~= out@);
    }
    segs.push(cur);
    proof {
        assert(seg_views(segs@) =~~= split_lines_spec(out@));
    }
    segs
}

/// The non-empty segments, in order: the JSON records of the output.
pub open spec fn nonempty_segs(ss: Seq<Seq<u8>>) -> Seq<Seq<u8>>
    decreases ss.len(),
{
    if ss.len() == 0 {
        Seq::empty()
    } else {
        let rest = nonempty_segs(ss.drop_last());
        if ss.last().len() > 0 {
            rest.push(ss.last())
        } else {
            rest
        }
    }
}

/// The records of the tool's output: the non-empty lines.
pub open spec fn nonempty_lines(s: Seq<u8>) -> Seq<Seq<u8>> {
    nonempty_segs(split_lines_spec(s))
}

/// Every non-empty segment appears among the records.
proof fn lemma_nonempty_contains(ss: Seq<Seq<u8>>, j: int)
    requires
        0 <= j < ss.len(),
        ss[j].len() > 0,
    ensures
        exists|k: int| 0 <= k < nonempty_segs(ss).len() && nonempty_segs(ss)[k] == ss[j],
    decreases ss.len(),
{
    let rest = nonempty_segs(ss.drop_last());
    if j == ss.len() - 1 {
        assert(ss.last() == ss[j]);
        assert(nonempty_segs(ss)[rest.len() as int] == ss[j]);
    } else {
        lemma_nonempty_contains(ss.drop_last(), j);
        let k = choose|k: int|
            0 <= k < rest.len() && rest[k] == ss.drop_last()[j];
        assert(nonempty_segs(ss)[k] == ss[j]);
    }
}

/// Parse the tool's enumeration output: one JSON record per non-empty
/// line.  Returns the candidates in output order when every record is
/// acceptable, and an error as soon as one is not — malformed output from
/// the external tool is an expected, recoverable failure.  An output with
/// no records (an empty channel window) parses as the empty list.
pub fn parse_videos(output: &Vec<u8>) -> (r: Result<Vec<YtVideo>, Error>)
    ensures
        r matches Ok(vs) ==> {
            &&& vs@.len() == nonempty_lines(output@).len()
            &&& forall|i: int|
                0 <= i < vs@.len() ==> video_matches_line(
                    nonempty_lines(output@)[i],
                    #[trigger] vs@[i],
                )
        },
        r is Ok <==> (forall|i: int|
            0 <= i < nonempty_lines(output@).len() ==> line_ok(
                #[trigger] nonempty_lines(output@)[i],
            )),
{
    let segs = split_lines(output);
    let ghost sv = seg_views(segs@);
    let mut vs: Vec<YtVideo> = Vec::new();
    let mut j: usize = 0;
    while j < segs.len()
        invariant
            j <= segs@.len(),
            seg_views(segs@) == sv,
            sv == split_lines_spec(output@),
            vs@.len() == nonempty_segs(sv.take(j as int)).len(),
            forall|i: int|
                0 <= i < vs@.len() ==> video_matches_line(
                    nonempty_segs(sv.take(j as int))[i],
                    #[trigger] vs@[i],
                ),
            forall|i: int|
                0 <= i < nonempty_segs(sv.take(j as int)).len() ==> line_ok(
                    #[trigger] nonempty_segs(sv.take(j as int))[i],
                ),
        decreases segs@.len() - j,
    {
        let line = &segs[j];
        proof {
            assert(line@ == sv[j as int]);
            assert(sv.take(j + 1 as int).drop_last() =~= sv.take(j as int));
            assert(sv.take(j + 1 as int).last() == sv[j as int]);
        }
        if line.len() > 0 {
            match parse_record(line) {
                Option::Some(v) => {
                    vs.push(v);
                },
                Option::None => {
                    proof {
                        lemma_nonempty_contains(sv, j as int);
                        let k = choose|k: int|
                            0 <= k < nonempty_segs(sv).len() && nonempty_segs(sv)[k] == sv[j as int];
                        assert(nonempty_lines(output@) == nonempty_segs(sv));
                        assert(!line_ok(nonempty_lines(output@)[k]));
                    }
                    return Result::Err(Error::default("unparseable record in tool output"));
                },
            }
        }
        j = j + 1;
    }
    proof {
        assert(sv.take(segs@.len() as int) =~= sv);
    }
    Result::Ok(vs)
}

} // verus!
