//! The relay's settings.

use crate::environment::{or_text, text_or, EnvVars};
use crate::identity::{
    law_uuid_text_is_read_back, lemma_hex_pairs, lemma_hex_pairs_add, push_hex_pairs, uuid_at,
    uuid_text,
};
use crate::text::{chars_of, hex_pairs, hex_value, slice_text};
use vstd::prelude::*;
use vstd::utf8::encode_utf8;

verus! {

/// The relay's settings.
pub struct Config {
    /// The secret path.
    pub sub_path: String,
    /// The key of the tunnel, as a UUID.
    pub uuid: String,
    /// Where the list of preferred nodes is.
    pub txt_url: String,
    /// The prefix of a NAT64 gateway; empty for none.
    pub nat64_prefix: String,
    /// The name server that is asked over HTTPS.
    pub doh_address: String,
    /// Where to connect when all else fails; empty for nowhere.
    pub proxy_ip: String,
    /// The name of the clients that read links, in two parts.
    pub vless_split_1: String,
    pub vless_split_2: String,
    /// The name of the clients that read YAML, in two parts.
    pub clash_split_1: String,
    pub clash_split_2: String,
}

/// The first twenty digits of a text in base sixteen, by way of UTF-8, filled up with zeros.
pub open spec fn twenty_digits(sub_path: Seq<char>) -> Seq<char> {
    let digits = hex_pairs(encode_utf8(sub_path));
    if digits.len() >= 20 {
        digits.take(20)
    } else {
        digits + Seq::new((20 - digits.len()) as nat, |i: int| '0')
    }
}

/// The UUID that belongs to a secret path: its first twenty digits around fixed ones.
pub open spec fn uuid_for(sub_path: Seq<char>) -> Seq<char> {
    twenty_digits(sub_path).take(8) + "-0000-4000-8000-"@ + twenty_digits(sub_path).skip(8)
}

/// Makes the UUID that belongs to a secret path.
pub fn generate_uuid(sub_path: &str) -> (out: String)
    ensures
        out@ == uuid_for(sub_path@),
{
    let bytes = sub_path.as_bytes();
    let mut encoded = String::new();
    push_hex_pairs(&mut encoded, bytes, 0, bytes.len());
    assert(bytes@.subrange(0, bytes@.len() as int) =~= bytes@);
    assert(encoded@ =~= hex_pairs(encode_utf8(sub_path@)));
    let digits = chars_of(encoded.as_str());
    let kept: usize = if digits.len() < 20 {
        digits.len()
    } else {
        20
    };
    let mut twenty = slice_text(&digits, 0, kept);
    let mut i: usize = kept;
    while i < 20
        invariant
            kept <= i <= 20,
            twenty@ == digits@.take(kept as int) + Seq::new((i - kept) as nat, |j: int| '0'),
        decreases 20 - i,
    {
        twenty.push('0');
        i += 1;
        assert(twenty@ =~= digits@.take(kept as int) + Seq::new((i - kept) as nat, |j: int| '0'));
    }
    assert(twenty@ =~= twenty_digits(sub_path@));
    let twenty = chars_of(twenty.as_str());
    let mut out = slice_text(&twenty, 0, 8);
    out.append("-0000-4000-8000-");
    out.append(slice_text(&twenty, 8, 20).as_str());
    assert(twenty@.subrange(0, 8) =~= twenty@.take(8));
    assert(twenty@.subrange(8, 20) =~= twenty@.skip(8));
    out
}

impl Default for Config {
    /// The settings where the environment gives none.
    fn default() -> (c: Config)
        ensures
            c.sub_path@ == "订阅路径"@,
            c.uuid@ == Seq::<char>::empty(),
            c.txt_url@
                == "https://raw.githubusercontent.com/ImLTHQ/edgetunnel/main/AutoTest.txt"@,
            c.nat64_prefix@ == "2a02:898:146:64::"@,
            c.doh_address@ == "1.1.1.1"@,
            c.proxy_ip@ == "proxyip.cmliussss.net"@,
            c.vless_split_1@ == "v2"@,
            c.vless_split_2@ == "ray"@,
            c.clash_split_1@ == "cla"@,
            c.clash_split_2@ == "sh"@,
    {
        Config {
            sub_path: "订阅路径".to_owned(),
            uuid: String::new(),
            txt_url: "https://raw.githubusercontent.com/ImLTHQ/edgetunnel/main/AutoTest.txt"
                .to_owned(),
            nat64_prefix: "2a02:898:146:64::".to_owned(),
            doh_address: "1.1.1.1".to_owned(),
            proxy_ip: "proxyip.cmliussss.net".to_owned(),
            vless_split_1: "v2".to_owned(),
            vless_split_2: "ray".to_owned(),
            clash_split_1: "cla".to_owned(),
            clash_split_2: "sh".to_owned(),
        }
    }
}

impl Config {
    /// The name of the clients that read links.
    pub open spec fn vless_text(self) -> Seq<char> {
        self.vless_split_1@ + self.vless_split_2@
    }

    /// The name of the clients that read YAML.
    pub open spec fn clash_text(self) -> Seq<char> {
        self.clash_split_1@ + self.clash_split_2@
    }

    /// The name of the clients that read links.
    pub fn vless(&self) -> (out: String)
        ensures
            out@ == self.vless_text(),
    {
        let mut out = self.vless_split_1.clone();
        out.append(self.vless_split_2.as_str());
        out
    }

    /// The name of the clients that read YAML.
    pub fn clash(&self) -> (out: String)
        ensures
            out@ == self.clash_text(),
    {
        let mut out = self.clash_split_1.clone();
        out.append(self.clash_split_2.as_str());
        out
    }

    /// The default settings with a secret path from the environment, or else from the URL. The key
    /// is left empty.
    pub fn from_env(sub_path: Option<String>, sub_path_from_url: &str) -> (c: Config)
        ensures
            c.sub_path@ == text_or(sub_path, sub_path_from_url@),
            c.uuid@ == Seq::<char>::empty(),
            c.txt_url@
                == "https://raw.githubusercontent.com/ImLTHQ/edgetunnel/main/AutoTest.txt"@,
            c.nat64_prefix@ == "2a02:898:146:64::"@,
            c.doh_address@ == "1.1.1.1"@,
            c.proxy_ip@ == "proxyip.cmliussss.net"@,
            c.vless_text() == "v2"@ + "ray"@,
            c.clash_text() == "cla"@ + "sh"@,
    {
        let mut config = Config::default();
        config.sub_path = or_text(sub_path, sub_path_from_url);
        config
    }

    /// The default settings with those of the environment in their place, and the key that belongs
    /// to the secret path.
    pub fn configure(vars: EnvVars) -> (c: Config)
        ensures
            c.sub_path@ == text_or(vars.sub_path, "订阅路径"@),
            c.uuid@ == uuid_for(c.sub_path@),
            c.txt_url@ == text_or(
                vars.txt_url,
                "https://raw.githubusercontent.com/ImLTHQ/edgetunnel/main/AutoTest.txt"@,
            ),
            c.nat64_prefix@ == text_or(vars.nat64, "2a02:898:146:64::"@),
            c.doh_address@ == text_or(vars.doh, "1.1.1.1"@),
            c.proxy_ip@ == text_or(vars.proxy_ip, "proxyip.cmliussss.net"@),
            c.vless_text() == "v2"@ + "ray"@,
            c.clash_text() == "cla"@ + "sh"@,
    {
        let mut config = Config::default();
        if let Some(sub_path) = vars.sub_path {
            config.sub_path = sub_path;
        }
        config.uuid = generate_uuid(config.sub_path.as_str());
        if let Some(txt_url) = vars.txt_url {
            config.txt_url = txt_url;
        }
        if let Some(nat64) = vars.nat64 {
            config.nat64_prefix = nat64;
        }
        if let Some(doh) = vars.doh {
            config.doh_address = doh;
        }
        if let Some(proxy_ip) = vars.proxy_ip {
            config.proxy_ip = proxy_ip;
        }
        config
    }
}

// ---------------------------------------------------------------------------
// Laws
// ---------------------------------------------------------------------------

/// The first ten bytes of a secret path, filled up with zeros.
pub open spec fn ten_bytes(b: Seq<u8>) -> Seq<u8> {
    if b.len() >= 10 {
        b.take(10)
    } else {
        b + Seq::new((10 - b.len()) as nat, |i: int| 0u8)
    }
}

/// The key that belongs to a secret path: its first ten bytes around fixed ones.
pub open spec fn key_for(sub_path: Seq<char>) -> Seq<u8> {
    let b = ten_bytes(encode_utf8(sub_path));
    b.subrange(0, 4) + seq![0u8, 0u8, 64u8, 0u8, 128u8, 0u8] + b.subrange(4, 10)
}

proof fn lemma_twenty_digits(sub_path: Seq<char>)
    ensures
        twenty_digits(sub_path) == hex_pairs(ten_bytes(encode_utf8(sub_path))),
{
    let b = encode_utf8(sub_path);
    lemma_hex_pairs(b);
    lemma_hex_pairs(ten_bytes(b));
    if b.len() >= 10 {
        lemma_hex_pairs_add(b.take(10), b.skip(10));
        assert(b.take(10) + b.skip(10) =~= b);
        assert(hex_pairs(b).take(20) =~= hex_pairs(b.take(10)));
    } else {
        let zeros = Seq::new((10 - b.len()) as nat, |i: int| 0u8);
        lemma_hex_pairs(zeros);
        lemma_hex_pairs_add(b, zeros);
        assert forall|i: int| 0 <= i < 20 - 2 * b.len() implies hex_pairs(zeros)[i] == '0' by {
            assert(zeros[i / 2] == 0);
            assert(i == 2 * (i / 2) || i == 2 * (i / 2) + 1);
        }
        assert(twenty_digits(sub_path) =~= hex_pairs(b) + hex_pairs(zeros));
    }
}

/// The UUID of every secret path is the text of a key of sixteen bytes, so every tunnel can be
/// opened by a client that knows the path.
pub proof fn law_every_path_has_a_key(sub_path: Seq<char>)
    ensures
        key_for(sub_path).len() == 16,
        uuid_for(sub_path) == uuid_text(key_for(sub_path)),
{
    let b = ten_bytes(encode_utf8(sub_path));
    let k = key_for(sub_path);
    lemma_twenty_digits(sub_path);
    lemma_hex_pairs(b);
    lemma_hex_pairs(b.subrange(0, 4));
    lemma_hex_pairs_add(b.subrange(0, 4), b.subrange(4, 10));
    assert(b.subrange(0, 4) + b.subrange(4, 10) =~= b);
    assert(twenty_digits(sub_path).take(8) =~= hex_pairs(b.subrange(0, 4)));
    assert(twenty_digits(sub_path).skip(8) =~= hex_pairs(b.subrange(4, 10)));
    assert(k.subrange(0, 4) =~= b.subrange(0, 4));
    assert(k.subrange(4, 6) =~= seq![0u8, 0u8]);
    assert(k.subrange(6, 8) =~= seq![64u8, 0u8]);
    assert(k.subrange(8, 10) =~= seq![128u8, 0u8]);
    assert(k.subrange(10, 16) =~= b.subrange(4, 10));
    lemma_hex_pairs(k.subrange(4, 6));
    lemma_hex_pairs(k.subrange(6, 8));
    lemma_hex_pairs(k.subrange(8, 10));
    assert(k.subrange(4, 6)[0] == 0 && k.subrange(4, 6)[1] == 0);
    assert(k.subrange(6, 8)[0] == 64 && k.subrange(6, 8)[1] == 0);
    assert(k.subrange(8, 10)[0] == 128 && k.subrange(8, 10)[1] == 0);
    assert(hex_pairs(k.subrange(4, 6)) =~= seq!['0', '0', '0', '0']);
    assert(hex_pairs(k.subrange(6, 8)) =~= seq!['4', '0', '0', '0']);
    assert(hex_pairs(k.subrange(8, 10)) =~= seq!['8', '0', '0', '0']);
    reveal_strlit("-0000-4000-8000-");
    assert("-0000-4000-8000-"@ =~= seq!['-'] + seq!['0', '0', '0', '0'] + seq!['-'] + seq![
        '4',
        '0',
        '0',
        '0',
    ] + seq!['-'] + seq!['8', '0', '0', '0'] + seq!['-']);
    assert(uuid_for(sub_path) =~= uuid_text(k));
}

/// The key of a secret path holds the first ten bytes of the path, with zeros for those that it
/// lacks: four in front and six at the end. Between them it is always the same.
pub proof fn law_key_holds_the_path(sub_path: Seq<char>, i: int)
    requires
        0 <= i < 10,
    ensures
        key_for(sub_path).len() == 16,
        key_for(sub_path)[if i < 4 {
            i
        } else {
            i + 6
        }] == (if i < encode_utf8(sub_path).len() {
            encode_utf8(sub_path)[i]
        } else {
            0
        }),
        key_for(sub_path).subrange(4, 10) == seq![0u8, 0u8, 64u8, 0u8, 128u8, 0u8],
{
    assert(key_for(sub_path).subrange(4, 10) =~= seq![0u8, 0u8, 64u8, 0u8, 128u8, 0u8]);
}

/// The UUID of a secret path shows that key: two digits for each byte, around the hyphens.
pub proof fn law_uuid_shows_the_path(sub_path: Seq<char>, i: int)
    requires
        0 <= i < 10,
    ensures
        ({
            let t = uuid_for(sub_path);
            let at = uuid_at(if i < 4 {
                i
            } else {
                i + 6
            });
            &&& t.len() == 36
            &&& hex_value(t[at]) >= 0
            &&& hex_value(t[at + 1]) >= 0
            &&& hex_value(t[at]) * 16 + hex_value(t[at + 1]) == (if i < encode_utf8(sub_path).len() {
                encode_utf8(sub_path)[i] as int
            } else {
                0
            })
            &&& t.subrange(8, 24) == "-0000-4000-8000-"@
        }),
{
    law_every_path_has_a_key(sub_path);
    law_key_holds_the_path(sub_path, i);
    law_uuid_text_is_read_back(
        key_for(sub_path),
        if i < 4 {
            i
        } else {
            i + 6
        },
    );
    lemma_twenty_digits(sub_path);
    lemma_hex_pairs(ten_bytes(encode_utf8(sub_path)));
    reveal_strlit("-0000-4000-8000-");
    assert(uuid_for(sub_path).subrange(8, 24) =~= "-0000-4000-8000-"@);
}

/// The names of the clients are their two parts, one behind the other.
pub proof fn law_names_are_put_together(config: Config)
    ensures
        config.vless_text() == config.vless_split_1@ + config.vless_split_2@,
        config.clash_text() == config.clash_split_1@ + config.clash_split_2@,
{
}

} // verus!
