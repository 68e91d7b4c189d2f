//! Which request gets what.

use super::config::AppConfig;
use crate::codec::{ascii_lowered, lowercase, to_lowercase, url_encode, url_encoded};
use crate::reply::{missing, not_found, Reply};
use crate::text::{
    after_first, before_first, begins_with, contains_text, find, has_part, law_part_is_anywhere,
    law_prefix_is_in_front, lemma_cut_first, lemma_find, lemma_no_cut, same_text, split_first,
    starts_with_text, strip_text,
};
use crate::upgrade::{asks_websocket, wants_websocket};
use vstd::prelude::*;
use vstd::utf8::is_ascii_chars;

verus! {

/// The documents of a subscription.
#[derive(Clone, Copy, PartialEq, Eq, Structural)]
pub enum Document {
    /// Links, for one kind of client.
    V2ray,
    /// YAML, for another.
    Clash,
    /// A page for people.
    Tips,
}

/// The document for a user agent, given in lower case: the one of the client that it names.
pub open spec fn document_for(user_agent: Seq<char>, config: AppConfig) -> Document {
    if has_part(user_agent, config.v2ray_text()) {
        Document::V2ray
    } else if has_part(user_agent, config.clash_text()) {
        Document::Clash
    } else {
        Document::Tips
    }
}

/// Picks the document for a user agent that is given in lower case.
pub fn pick_document(user_agent: &str, config: &AppConfig) -> (d: Document)
    ensures
        d == document_for(user_agent@, *config),
{
    if contains_text(user_agent, config.v2ray().as_str()) {
        Document::V2ray
    } else if contains_text(user_agent, config.clash().as_str()) {
        Document::Clash
    } else {
        Document::Tips
    }
}

/// Picks the document for a user agent, in whatever case.
pub fn handle_subscription(user_agent: &str, config: &AppConfig) -> (d: Document)
    ensures
        d == document_for(lowercase(user_agent@), *config),
        is_ascii_chars(user_agent@) ==> d == document_for(ascii_lowered(user_agent@), *config),
{
    pick_document(to_lowercase(user_agent).as_str(), config)
}

/// Picks the document for a client that is named in the path.
pub fn client_document(client: &str, config: &AppConfig) -> (r: Result<Document, Reply<String>>)
    ensures
        match r {
            Ok(d) => {
                ||| d == Document::V2ray && client@ == config.v2ray_text()
                ||| d == Document::Clash && client@ == config.clash_text() && client@
                    != config.v2ray_text()
            },
            Err(e) => {
                &&& client@ != config.v2ray_text()
                &&& client@ != config.clash_text()
                &&& e@ == missing()
            },
        },
{
    if same_text(client, config.v2ray().as_str()) {
        Ok(Document::V2ray)
    } else if same_text(client, config.clash().as_str()) {
        Ok(Document::Clash)
    } else {
        Err(not_found())
    }
}

/// What a request asks for, by its method and its path.
pub enum Entry<T> {
    /// A document below this path, by user agent.
    Subscription(T),
    /// A document below this path, for this client.
    Client(T, T),
    /// Anything else.
    Other,
}

impl View for Entry<String> {
    type V = Entry<Seq<char>>;

    open spec fn view(&self) -> Entry<Seq<char>> {
        match *self {
            Entry::Subscription(sub_path) => Entry::Subscription(sub_path@),
            Entry::Client(sub_path, client) => Entry::Client(sub_path@, client@),
            Entry::Other => Entry::Other,
        }
    }
}

/// What a request asks for: a `GET` of `/sub_path` or of `/sub_path/client`, in which neither is
/// empty, asks for a document.
pub open spec fn entry(get: bool, path: Seq<char>) -> Entry<Seq<char>> {
    let rest = path.skip(1);
    let sub_path = before_first(rest, '/');
    if !get || !begins_with(path, "/"@) || sub_path.len() == 0 {
        Entry::Other
    } else {
        match after_first(rest, '/') {
            None => Entry::Subscription(sub_path),
            Some(client) => if client.len() == 0 || client.contains('/') {
                Entry::Other
            } else {
                Entry::Client(sub_path, client)
            },
        }
    }
}

/// Tells what a request asks for, by its path and by whether its method is `GET`.
pub fn entry_of(get: bool, path: &str) -> (r: Entry<String>)
    ensures
        r@ == entry(get, path@),
{
    proof {
        reveal_strlit("/");
    }
    if !get || !starts_with_text(path, "/") {
        return Entry::Other;
    }
    let rest = strip_text(path, "/");
    let (sub_path, client) = split_first(rest.as_str(), '/');
    if sub_path.as_str().is_empty() {
        return Entry::Other;
    }
    match client {
        None => Entry::Subscription(sub_path),
        Some(client) => {
            let (_, more) = split_first(client.as_str(), '/');
            proof {
                lemma_find(client@, '/', 0);
            }
            if client.as_str().is_empty() || more.is_some() {
                Entry::Other
            } else {
                Entry::Client(sub_path, client)
            }
        },
    }
}

/// What becomes of a request that asks for no document.
pub enum Fallback<T> {
    /// It opens a tunnel.
    Tunnel,
    /// It is passed on to this URL.
    Proxy(T),
    /// It is answered.
    Answer(Reply<T>),
}

impl View for Fallback<String> {
    type V = Fallback<Seq<char>>;

    open spec fn view(&self) -> Fallback<Seq<char>> {
        match *self {
            Fallback::Tunnel => Fallback::Tunnel,
            Fallback::Proxy(url) => Fallback::Proxy(url@),
            Fallback::Answer(reply) => Fallback::Answer(reply@),
        }
    }
}

/// What the paths of the reverse proxy begin with.
pub open spec fn proxy_prefix(sub_path: Seq<char>) -> Seq<char> {
    "/"@ + url_encoded(sub_path)
}

/// Where the reverse proxy passes a request on to: what follows the prefix in its path.
pub open spec fn proxied(path: Seq<char>, prefix: Seq<char>) -> Fallback<Seq<char>> {
    if path.skip(prefix.len() as int).len() == 0 {
        Fallback::Answer(
            Reply::Error { message: "Target URL for proxy is empty"@, status: 400 },
        )
    } else {
        Fallback::Proxy(path.skip(prefix.len() as int))
    }
}

/// Passes a request on.
pub fn handle_reverse_proxy(path: &str, prefix: &str) -> (r: Fallback<String>)
    requires
        begins_with(path@, prefix@),
    ensures
        r@ == proxied(path@, prefix@),
{
    let target = strip_text(path, prefix);
    if target.as_str().is_empty() {
        Fallback::Answer(
            Reply::Error { message: "Target URL for proxy is empty".to_owned(), status: 400 },
        )
    } else {
        Fallback::Proxy(target)
    }
}

/// What becomes of a request that asks for no document.
pub open spec fn fallback(websocket: bool, path: Seq<char>, sub_path: Seq<char>) -> Fallback<
    Seq<char>,
> {
    if websocket {
        Fallback::Tunnel
    } else if begins_with(path, proxy_prefix(sub_path)) {
        proxied(path, proxy_prefix(sub_path))
    } else {
        Fallback::Answer(missing())
    }
}

/// Decides on a request that asks for no document, and of which it is known whether it asks for a
/// web socket.
pub fn route_request(websocket: bool, path: &str, config: &AppConfig) -> (r: Fallback<String>)
    ensures
        r@ == fallback(websocket, path@, config.sub_path@),
{
    if websocket {
        return Fallback::Tunnel;
    }
    let mut prefix = "/".to_owned();
    prefix.append(url_encode(config.sub_path.as_str()).as_str());
    if starts_with_text(path, prefix.as_str()) {
        handle_reverse_proxy(path, prefix.as_str())
    } else {
        Fallback::Answer(not_found())
    }
}

/// Decides on a request that asks for no document.
pub fn route_fallback(upgrade: &str, path: &str, config: &AppConfig) -> (r: Fallback<String>)
    ensures
        r@ == fallback(asks_websocket(upgrade@), path@, config.sub_path@),
        is_ascii_chars(upgrade@) ==> r@ == fallback(
            ascii_lowered(upgrade@) == "websocket"@,
            path@,
            config.sub_path@,
        ),
{
    route_request(wants_websocket(upgrade), path, config)
}

// ---------------------------------------------------------------------------
// Laws
// ---------------------------------------------------------------------------

/// Every path with one part names a subscription, and every path with two a client, if the parts
/// are neither empty nor hold a `/`.
pub proof fn law_paths_are_read_as_written(sub_path: Seq<char>, client: Seq<char>)
    requires
        sub_path.len() > 0,
        !sub_path.contains('/'),
        client.len() > 0,
        !client.contains('/'),
    ensures
        entry(true, "/"@ + sub_path) == Entry::Subscription(sub_path),
        entry(true, "/"@ + sub_path + "/"@ + client) == Entry::Client(sub_path, client),
{
    reveal_strlit("/");
    assert("/"@ =~= seq!['/']);
    let one = "/"@ + sub_path;
    let two = "/"@ + sub_path + "/"@ + client;
    assert(one.subrange(0, 1) =~= "/"@);
    assert(two.subrange(0, 1) =~= "/"@);
    assert(one.skip(1) =~= sub_path);
    assert(two.skip(1) =~= sub_path + seq!['/'] + client);
    lemma_no_cut(sub_path, '/');
    lemma_cut_first(sub_path, '/', client);
}

/// A request below the secret path that opens no tunnel is passed on to what follows it.
pub proof fn law_proxy_passes_on(sub_path: Seq<char>, target: Seq<char>)
    requires
        target.len() > 0,
    ensures
        fallback(false, proxy_prefix(sub_path) + target, sub_path) == Fallback::Proxy(target),
{
    let prefix = proxy_prefix(sub_path);
    assert((prefix + target).subrange(0, prefix.len() as int) =~= prefix);
    assert((prefix + target).skip(prefix.len() as int) =~= target);
}

/// A client whose user agent names it anywhere gets its document: the one for links where that name
/// stands in it, and the one in YAML where only the other does.
pub proof fn law_named_clients_get_their_documents(a: Seq<char>, b: Seq<char>, config: AppConfig)
    ensures
        document_for(a + config.v2ray_text() + b, config) == Document::V2ray,
        (forall|x: Seq<char>, y: Seq<char>|
            a + config.clash_text() + b != #[trigger] (x + config.v2ray_text() + y)) ==> document_for(
            a + config.clash_text() + b,
            config,
        ) == Document::Clash,
{
    law_part_is_anywhere(a + config.clash_text() + b, config.v2ray_text(), a, b);
    law_part_is_anywhere(a + config.clash_text() + b, config.clash_text(), a, b);
}

/// A document tells what the user agent names: links follow the one name, YAML the other and not
/// the first, and the page for people neither of them.
pub proof fn law_documents_tell_the_client(user_agent: Seq<char>, config: AppConfig)
    ensures
        match document_for(user_agent, config) {
            Document::V2ray => exists|x: Seq<char>, y: Seq<char>|
                user_agent == #[trigger] (x + config.v2ray_text() + y),
            Document::Clash => {
                &&& exists|x: Seq<char>, y: Seq<char>|
                    user_agent == #[trigger] (x + config.clash_text() + y)
                &&& forall|x: Seq<char>, y: Seq<char>|
                    user_agent != #[trigger] (x + config.v2ray_text() + y)
            },
            Document::Tips => {
                &&& forall|x: Seq<char>, y: Seq<char>|
                    user_agent != #[trigger] (x + config.clash_text() + y)
                &&& forall|x: Seq<char>, y: Seq<char>|
                    user_agent != #[trigger] (x + config.v2ray_text() + y)
            },
        },
{
    let none = Seq::<char>::empty();
    law_part_is_anywhere(user_agent, config.v2ray_text(), none, none);
    law_part_is_anywhere(user_agent, config.clash_text(), none, none);
    assert forall|x: Seq<char>, y: Seq<char>|
        user_agent == #[trigger] (x + config.clash_text() + y) implies has_part(
        user_agent,
        config.clash_text(),
    ) by {
        law_part_is_anywhere(user_agent, config.clash_text(), x, y);
    }
    assert forall|x: Seq<char>, y: Seq<char>|
        user_agent == #[trigger] (x + config.v2ray_text() + y) implies has_part(
        user_agent,
        config.v2ray_text(),
    ) by {
        law_part_is_anywhere(user_agent, config.v2ray_text(), x, y);
    }
}

/// Nothing else asks for a document: what is asked for is read off a path of exactly one or two
/// parts, and only by `GET`.
pub proof fn law_only_paths_of_parts_ask_for_documents(get: bool, path: Seq<char>)
    ensures
        match entry(get, path) {
            Entry::Subscription(sub_path) => {
                &&& get
                &&& path == seq!['/'] + sub_path
                &&& sub_path.len() > 0
                &&& !sub_path.contains('/')
            },
            Entry::Client(sub_path, client) => {
                &&& get
                &&& path == seq!['/'] + sub_path + seq!['/'] + client
                &&& sub_path.len() > 0
                &&& !sub_path.contains('/')
                &&& client.len() > 0
                &&& !client.contains('/')
            },
            Entry::Other => true,
        },
        !get ==> entry(get, path) == Entry::<Seq<char>>::Other,
{
    reveal_strlit("/");
    assert("/"@ =~= seq!['/']);
    let rest = path.skip(1);
    lemma_find(rest, '/', 0);
    let at = find(rest, '/', 0);
    if get && begins_with(path, "/"@) {
        assert(path =~= seq!['/'] + rest);
        let sub_path = before_first(rest, '/');
        assert forall|i: int| 0 <= i < sub_path.len() implies sub_path[i] != '/' by {
            assert(sub_path[i] == rest[i]);
        }
        if at < rest.len() {
            assert(rest =~= sub_path + seq!['/'] + rest.skip(at + 1));
            assert(path =~= seq!['/'] + sub_path + seq!['/'] + rest.skip(at + 1));
        } else {
            assert(sub_path =~= rest);
        }
    }
}

/// A web socket gets a tunnel on every path. Of other requests, the secret path alone is refused
/// for want of a target, and a path that does not begin with it finds nothing.
pub proof fn law_other_requests(path: Seq<char>, sub_path: Seq<char>)
    ensures
        fallback(true, path, sub_path) == Fallback::<Seq<char>>::Tunnel,
        fallback(false, "/"@ + url_encoded(sub_path), sub_path) == Fallback::Answer(
            Reply::Error { message: "Target URL for proxy is empty"@, status: 400 },
        ),
        (forall|y: Seq<char>| path != #[trigger] ("/"@ + url_encoded(sub_path) + y)) ==> fallback(
            false,
            path,
            sub_path,
        ) == Fallback::Answer(Reply::Error { message: "Not Found"@, status: 404 }),
{
    let prefix = "/"@ + url_encoded(sub_path);
    assert(prefix.subrange(0, prefix.len() as int) =~= prefix);
    law_prefix_is_in_front(path, prefix, Seq::empty());
}

/// What follows the percent-encoded secret path is fetched, character for character, for every
/// path and every target but an empty one.
pub proof fn law_target_is_fetched(sub_path: Seq<char>, target: Seq<char>)
    requires
        target.len() > 0,
    ensures
        fallback(false, "/"@ + url_encoded(sub_path) + target, sub_path) == Fallback::Proxy(target),
{
    law_proxy_passes_on(sub_path, target);
}

/// What a request asks for and what becomes of it are seen as they are.
pub proof fn law_routes_are_seen_as_they_are(a: String, b: String, reply: Reply<String>)
    ensures
        Entry::Subscription(a)@ == Entry::Subscription(a@),
        Entry::Client(a, b)@ == Entry::Client(a@, b@),
        Entry::<String>::Other@ == Entry::<Seq<char>>::Other,
        Fallback::<String>::Tunnel@ == Fallback::<Seq<char>>::Tunnel,
        Fallback::Proxy(a)@ == Fallback::Proxy(a@),
        Fallback::Answer(reply)@ == Fallback::Answer(reply@),
{
}

} // verus!
