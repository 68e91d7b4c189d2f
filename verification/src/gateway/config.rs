//! The gateway's settings.

use crate::environment::{optional, or_text, text_or, EnvVars};
use crate::identity::{
    is_uuid, law_stamping_keeps_the_rest, law_uuid_text_is_read_back, md5_compute, md5_digest,
    says_version_4, stamped, uuid_at, uuid_of_digest, uuid_text,
};
use crate::text::hex_value;
use vstd::prelude::*;
use vstd::utf8::encode_utf8;

verus! {

/// The gateway's settings.
pub struct AppConfig {
    /// The secret path.
    pub sub_path: String,
    /// The key of the tunnel, as a UUID.
    pub uuid: String,
    /// Where the list of preferred nodes is.
    pub txt_url: String,
    /// The prefix of a NAT64 gateway.
    pub nat64_prefix: Option<String>,
    /// The name server that is asked over HTTPS.
    pub doh_address: String,
    /// Where to connect when all else fails.
    pub proxy_ip: Option<String>,
    /// The name of a client program, in two parts.
    pub v2ray_split: (String, String),
    /// The name of the tunnel protocol, in two parts.
    pub vless_split: (String, String),
    /// The name of another client program, in two parts.
    pub clash_split: (String, String),
}

/// The UUID that belongs to a text: its MD5 digest, marked as version 4.
pub open spec fn uuid_for(text: Seq<char>) -> Seq<char> {
    uuid_text(stamped(md5_digest(encode_utf8(text))))
}

/// Makes the UUID that belongs to a text.
pub fn generate_uuid(text: &str) -> (out: String)
    ensures
        out@ == uuid_for(text@),
        md5_digest(encode_utf8(text@)).len() == 16,
        is_uuid(out@),
        says_version_4(out@),
{
    uuid_of_digest(md5_compute(text.as_bytes()))
}

impl AppConfig {
    /// The name of the client program that reads lists of links.
    pub open spec fn v2ray_text(self) -> Seq<char> {
        self.v2ray_split.0@ + self.v2ray_split.1@
    }

    /// The name of the tunnel protocol.
    pub open spec fn vless_text(self) -> Seq<char> {
        self.vless_split.0@ + self.vless_split.1@
    }

    /// The name of the client program that reads YAML.
    pub open spec fn clash_text(self) -> Seq<char> {
        self.clash_split.0@ + self.clash_split.1@
    }

    /// Reads the settings from the environment. The secret path comes from the URL where the
    /// environment does not give one.
    pub fn from_env(vars: EnvVars, sub_path_from_url: &str) -> (config: AppConfig)
        ensures
            config.sub_path@ == text_or(vars.sub_path, sub_path_from_url@),
            config.uuid@ == uuid_for(config.sub_path@),
            md5_digest(encode_utf8(config.sub_path@)).len() == 16,
            is_uuid(config.uuid@),
            says_version_4(config.uuid@),
            config.txt_url@ == text_or(
                vars.txt_url,
                "https://raw.githubusercontent.com/ImLTHQ/edgetunnel/main/AutoTest.txt"@,
            ),
            optional(config.nat64_prefix) == optional(vars.nat64),
            config.doh_address@ == text_or(vars.doh, "1.1.1.1"@),
            optional(config.proxy_ip) == optional(vars.proxy_ip),
            config.v2ray_split.0@ == "v2"@,
            config.v2ray_split.1@ == "ray"@,
            config.vless_split.0@ == "vl"@,
            config.vless_split.1@ == "ess"@,
            config.clash_split.0@ == "cla"@,
            config.clash_split.1@ == "sh"@,
    {
        let sub_path = or_text(vars.sub_path, sub_path_from_url);
        AppConfig {
            uuid: generate_uuid(sub_path.as_str()),
            sub_path,
            txt_url: or_text(
                vars.txt_url,
                "https://raw.githubusercontent.com/ImLTHQ/edgetunnel/main/AutoTest.txt",
            ),
            nat64_prefix: vars.nat64,
            doh_address: or_text(vars.doh, "1.1.1.1"),
            proxy_ip: vars.proxy_ip,
            v2ray_split: ("v2".to_owned(), "ray".to_owned()),
            vless_split: ("vl".to_owned(), "ess".to_owned()),
            clash_split: ("cla".to_owned(), "sh".to_owned()),
        }
    }

    /// The name of the client program that reads lists of links.
    pub fn v2ray(&self) -> (out: String)
        ensures
            out@ == self.v2ray_text(),
    {
        let mut out = self.v2ray_split.0.clone();
        out.append(self.v2ray_split.1.as_str());
        out
    }

    /// The name of the tunnel protocol.
    pub fn vless(&self) -> (out: String)
        ensures
            out@ == self.vless_text(),
    {
        let mut out = self.vless_split.0.clone();
        out.append(self.vless_split.1.as_str());
        out
    }

    /// The name of the client program that reads YAML.
    pub fn clash(&self) -> (out: String)
        ensures
            out@ == self.clash_text(),
    {
        let mut out = self.clash_split.0.clone();
        out.append(self.clash_split.1.as_str());
        out
    }
}

// ---------------------------------------------------------------------------
// Laws
// ---------------------------------------------------------------------------

/// The UUID of a text shows its MD5 digest: for each byte of it two digits that stand for the byte,
/// but for the version and the variant in two of them.
pub proof fn law_uuid_shows_the_digest(text: Seq<char>, i: int)
    requires
        0 <= i < 16,
    ensures
        md5_digest(encode_utf8(text)).len() == 16 ==> {
            let digest = md5_digest(encode_utf8(text));
            let t = uuid_for(text);
            let byte = hex_value(t[uuid_at(i)]) * 16 + hex_value(t[uuid_at(i) + 1]);
            &&& t.len() == 36
            &&& t[8] == '-' && t[13] == '-' && t[18] == '-' && t[23] == '-'
            &&& i != 6 && i != 8 ==> byte == digest[i]
            &&& i == 6 ==> byte == 64 + digest[i] % 16
            &&& i == 8 ==> byte == 128 + digest[i] % 64
        },
{
    let digest = md5_digest(encode_utf8(text));
    if digest.len() == 16 {
        law_uuid_text_is_read_back(stamped(digest), i);
        law_stamping_keeps_the_rest(digest, i);
    }
}

/// The names of the clients and of the protocol are their two parts, one behind the other.
pub proof fn law_names_are_put_together(config: AppConfig)
    ensures
        config.v2ray_text() == config.v2ray_split.0@ + config.v2ray_split.1@,
        config.vless_text() == config.vless_split.0@ + config.vless_split.1@,
        config.clash_text() == config.clash_split.0@ + config.clash_split.1@,
{
}

} // verus!
