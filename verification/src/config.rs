//! The process configuration: constructed once at startup and passed by
//! reference to whatever needs it, never re-read mid-process.

use vstd::prelude::*;

use vstd::string::StringExecFns;

verus! {

/// Where the server keeps its data and secrets, which port it serves, and
/// the credentials its adapters use.
#[derive(Debug)]
pub struct Config {
    pub data_location: String,
    pub secrets_location: String,
    pub port: u32,
    pub yt_dlp_output_template: String,
    pub spotify_id: String,
    pub spotify_secret: String,
    pub lastfm_api_key: String,
}

impl Default for Config {
    /// The stock configuration: local data under `data/`, port 8080, and
    /// empty credentials to be filled in by the operator.
    fn default() -> (r: Config)
        ensures
            r.data_location@ == "data"@,
            r.secrets_location@ == "data/secrets"@,
            r.port == 8080,
            r.yt_dlp_output_template@ == "%(title)s.%(ext)s"@,
            r.spotify_id@ == Seq::<char>::empty(),
            r.spotify_secret@ == Seq::<char>::empty(),
            r.lastfm_api_key@ == Seq::<char>::empty(),
    {
        Config {
            data_location: String::from_str("data"),
            secrets_location: String::from_str("data/secrets"),
            port: 8080,
            yt_dlp_output_template: String::from_str("%(title)s.%(ext)s"),
            spotify_id: String::new(),
            spotify_secret: String::new(),
            lastfm_api_key: String::new(),
        }
    }
}

} // verus!
