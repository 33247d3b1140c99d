//! The daemon's configuration, made from environment variables with
//! defaults for those that are unset.
use vstd::prelude::*;
use vstd::string::*;

verus! {

/// Where the daemon finds the Saga server and how it authenticates.
pub struct MyrConfig {
    pub saga_api_url: String,
    pub voice_api_key: String,
    pub saga_host: String,
    pub saga_voice_ip: String,
    pub saga_voice_port: String,
    pub myr_local_port: String,
}

/// The variable's value where it is set, the default otherwise.
pub open spec fn or_default(value: Option<Seq<char>>, default: Seq<char>) -> Seq<char> {
    match value {
        Some(v) => v,
        None => default,
    }
}

/// The view of an optional string.
pub open spec fn opt_chars(o: Option<String>) -> Option<Seq<char>> {
    match o {
        Some(s) => Some(s@),
        None => None,
    }
}

/// The variable's value where it is set, the default otherwise.
pub fn env_or_default(value: Option<String>, default: &str) -> (r: String)
    ensures
        r@ == or_default(opt_chars(value), default@),
{
    match value {
        Some(v) => v,
        None => String::from_str(default),
    }
}

impl MyrConfig {
    /// The configuration made of the values of `MYR_LOCAL_PORT`,
    /// `SAGA_API_URL`, `VOICE_API_KEY`, `SAGA_API_KEY`, `SAGA_HOST`,
    /// `SAGA_VOICE_IP` and `SAGA_VOICE_PORT` (`None` where unset): the local
    /// port defaults to 18765, the API URL to the local end of the tunnel,
    /// the key to `SAGA_API_KEY` and then to nothing, and the remote end to
    /// 192.168.4.111, 10.0.0.60 and 8765.
    pub fn from_values(
        myr_local_port: Option<String>,
        saga_api_url: Option<String>,
        voice_api_key: Option<String>,
        saga_api_key: Option<String>,
        saga_host: Option<String>,
        saga_voice_ip: Option<String>,
        saga_voice_port: Option<String>,
    ) -> (c: MyrConfig)
        ensures
            c.myr_local_port@ == or_default(opt_chars(myr_local_port), "18765"@),
            c.saga_api_url@ == or_default(
                opt_chars(saga_api_url),
                "http://localhost:"@ + c.myr_local_port@,
            ),
            c.voice_api_key@ == or_default(
                opt_chars(voice_api_key),
                or_default(opt_chars(saga_api_key), ""@),
            ),
            c.saga_host@ == or_default(opt_chars(saga_host), "192.168.4.111"@),
            c.saga_voice_ip@ == or_default(opt_chars(saga_voice_ip), "10.0.0.60"@),
            c.saga_voice_port@ == or_default(opt_chars(saga_voice_port), "8765"@),
    {
        let port = env_or_default(myr_local_port, "18765");
        let url = match saga_api_url {
            Some(u) => u,
            None => String::from_str("http://localhost:").concat(port.as_str()),
        };
        let key = match voice_api_key {
            Some(k) => k,
            None => env_or_default(saga_api_key, ""),
        };
        MyrConfig {
            saga_api_url: url,
            voice_api_key: key,
            saga_host: env_or_default(saga_host, "192.168.4.111"),
            saga_voice_ip: env_or_default(saga_voice_ip, "10.0.0.60"),
            saga_voice_port: env_or_default(saga_voice_port, "8765"),
            myr_local_port: port,
        }
    }
}

} // verus!
