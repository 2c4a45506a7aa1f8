//! The worker's configuration values, as loaded from the service's
//! configuration file by the surrounding program.

use vstd::prelude::*;

verus! {

pub struct Configuration {
    dev: bool,
    log_level: String,
    db_url: String,
    port: u16,
    sleep_time: u64,
    url: String,
    per_page: i64,
    cookies: String,
    jwt_secret: String,
    jwt_expires_in: String,
    jwt_maxage: i32,
}

pub struct ConfigurationView {
    pub dev: bool,
    pub log_level: Seq<char>,
    pub db_url: Seq<char>,
    pub port: u16,
    pub sleep_time: u64,
    pub url: Seq<char>,
    pub per_page: i64,
    pub cookies: Seq<char>,
    pub jwt_secret: Seq<char>,
    pub jwt_expires_in: Seq<char>,
    pub jwt_maxage: i32,
}

impl View for Configuration {
    type V = ConfigurationView;

    closed spec fn view(&self) -> ConfigurationView {
        ConfigurationView {
            dev: self.dev,
            log_level: self.log_level@,
            db_url: self.db_url@,
            port: self.port,
            sleep_time: self.sleep_time,
            url: self.url@,
            per_page: self.per_page,
            cookies: self.cookies@,
            jwt_secret: self.jwt_secret@,
            jwt_expires_in: self.jwt_expires_in@,
            jwt_maxage: self.jwt_maxage,
        }
    }
}

impl Configuration {
    /// Assemble a configuration from its plain values; the surrounding
    /// program reads them from the configuration file.
    pub fn from_values(
        dev: bool,
        log_level: String,
        db_url: String,
        port: u16,
        sleep_time: u64,
        url: String,
        per_page: i64,
        cookies: String,
        jwt_secret: String,
        jwt_expires_in: String,
        jwt_maxage: i32,
    ) -> (r: Configuration)
        ensures
            r@ == (ConfigurationView {
                dev,
                log_level: log_level@,
                db_url: db_url@,
                port,
                sleep_time,
                url: url@,
                per_page,
                cookies: cookies@,
                jwt_secret: jwt_secret@,
                jwt_expires_in: jwt_expires_in@,
                jwt_maxage,
            }),
    {
        Configuration {
            dev,
            log_level,
            db_url,
            port,
            sleep_time,
            url,
            per_page,
            cookies,
            jwt_secret,
            jwt_expires_in,
            jwt_maxage,
        }
    }

    pub fn get_log_level(&self) -> (r: &str)
        ensures
            r@ == self@.log_level,
    {
        self.log_level.as_str()
    }

    pub fn get_db_url(&self) -> (r: &str)
        ensures
            r@ == self@.db_url,
    {
        self.db_url.as_str()
    }

    pub fn get_dev(&self) -> (r: bool)
        ensures
            r == self@.dev,
    {
        self.dev
    }

    pub fn get_sleep_time(&self) -> (r: u64)
        ensures
            r == self@.sleep_time,
    {
        self.sleep_time
    }

    pub fn get_page(&self) -> (r: i64)
        ensures
            r == self@.per_page,
    {
        self.per_page
    }

    pub fn get_port(&self) -> (r: u16)
        ensures
            r == self@.port,
    {
        self.port
    }

    pub fn get_url(&self) -> (r: &str)
        ensures
            r@ == self@.url,
    {
        self.url.as_str()
    }

    pub fn get_cookies(&self) -> (r: &str)
        ensures
            r@ == self@.cookies,
    {
        self.cookies.as_str()
    }

    pub fn get_expires(&self) -> (r: &str)
        ensures
            r@ == self@.jwt_expires_in,
    {
        self.jwt_expires_in.as_str()
    }

    pub fn get_secret(&self) -> (r: &str)
        ensures
            r@ == self@.jwt_secret,
    {
        self.jwt_secret.as_str()
    }

    pub fn get_maxage(&self) -> (r: &i32)
        ensures
            *r == self@.jwt_maxage,
    {
        &self.jwt_maxage
    }
}

} // verus!
