//! Which request gets what.

use super::config::Config;
use crate::codec::{
    ascii_lowered, law_url_decoding_undoes_encoding, lowercase, to_lowercase, url_decode,
    url_decoded, url_encode, url_encoded,
};
use crate::environment::text_or;
use crate::reply::{missing, not_found, Reply};
use crate::text::{
    begins_with, contains_text, has_part, law_part_is_anywhere, law_prefix_is_in_front, same_text,
    starts_with_text, strip_text,
};
use crate::upgrade::{asks_websocket, wants_websocket};
use vstd::prelude::*;
use vstd::utf8::is_ascii_chars;

verus! {

/// The documents of a subscription.
#[derive(Clone, Copy, PartialEq, Eq, Structural)]
pub enum Document {
    /// Links, for one kind of client.
    Links,
    /// YAML, for another.
    Yaml,
    /// A page for people.
    Tips,
}

/// The document for a user agent, given in lower case: the one of the client that it names.
pub open spec fn document_for(user_agent: Seq<char>, config: Config) -> Document {
    if has_part(user_agent, config.vless_text()) {
        Document::Links
    } else if has_part(user_agent, config.clash_text()) {
        Document::Yaml
    } else {
        Document::Tips
    }
}

/// Picks the document for a user agent that is given in lower case.
pub fn pick_document(user_agent: &str, config: &Config) -> (d: Document)
    ensures
        d == document_for(user_agent@, *config),
{
    if contains_text(user_agent, config.vless().as_str()) {
        Document::Links
    } else if contains_text(user_agent, config.clash().as_str()) {
        Document::Yaml
    } else {
        Document::Tips
    }
}

/// Picks the document for a user agent, in whatever case.
pub fn document_by_agent(user_agent: &str, config: &Config) -> (d: Document)
    ensures
        d == document_for(lowercase(user_agent@), *config),
        is_ascii_chars(user_agent@) ==> d == document_for(ascii_lowered(user_agent@), *config),
{
    pick_document(to_lowercase(user_agent).as_str(), config)
}

/// What becomes of a request.
pub enum Route<T> {
    /// It gets this document.
    Document(Document),
    /// It gets the document for its user agent.
    ByAgent,
    /// It is passed on to this URL.
    Proxy(T),
    /// It opens a tunnel.
    Tunnel,
    /// It is answered.
    Answer(Reply<T>),
}

impl View for Route<String> {
    type V = Route<Seq<char>>;

    open spec fn view(&self) -> Route<Seq<char>> {
        match *self {
            Route::Document(d) => Route::Document(d),
            Route::ByAgent => Route::ByAgent,
            Route::Proxy(url) => Route::Proxy(url@),
            Route::Tunnel => Route::Tunnel,
            Route::Answer(reply) => Route::Answer(reply@),
        }
    }
}

/// The secret path.
pub open spec fn root(config: Config) -> Seq<char> {
    "/"@ + url_encoded(config.sub_path@)
}

/// Where the links are.
pub open spec fn links_path(config: Config) -> Seq<char> {
    root(config) + "/"@ + config.vless_text()
}

/// Where the YAML is.
pub open spec fn yaml_path(config: Config) -> Seq<char> {
    root(config) + "/"@ + config.clash_text()
}

/// What the paths of the reverse proxy begin with.
pub open spec fn proxy_prefix(config: Config) -> Seq<char> {
    root(config) + "/"@
}

/// The URL that a request is passed on to: what follows the prefix in its path, decoded where that
/// gives text, and its query behind it.
pub open spec fn proxied(target: Seq<char>, query: Seq<char>) -> Seq<char> {
    match url_decoded(target) {
        Some(decoded) => decoded + query,
        None => target + query,
    }
}

/// What becomes of a request.
pub open spec fn route(
    websocket: bool,
    path: Seq<char>,
    query: Seq<char>,
    config: Config,
) -> Route<Seq<char>> {
    if !websocket && path == links_path(config) {
        Route::Document(Document::Links)
    } else if !websocket && path == yaml_path(config) {
        Route::Document(Document::Yaml)
    } else if !websocket && path == root(config) {
        Route::ByAgent
    } else if begins_with(path, proxy_prefix(config)) && path != links_path(config) && path
        != yaml_path(config) {
        Route::Proxy(proxied(path.skip(proxy_prefix(config).len() as int), query))
    } else if websocket {
        Route::Tunnel
    } else {
        Route::Answer(missing())
    }
}

/// Decides on a request of which it is known whether it asks for a web socket.
pub fn route_request(
    websocket: bool,
    path: &str,
    query: Option<String>,
    config: &Config,
) -> (r: Route<String>)
    ensures
        r@ == route(
            websocket,
            path@,
            text_or(query, Seq::empty()),
            *config,
        ),
{
    let mut root_path = "/".to_owned();
    root_path.append(url_encode(config.sub_path.as_str()).as_str());
    let mut prefix = root_path.clone();
    prefix.append("/");
    let mut links = prefix.clone();
    links.append(config.vless().as_str());
    let mut yaml = prefix.clone();
    yaml.append(config.clash().as_str());

    let is_links = same_text(path, links.as_str());
    let is_yaml = same_text(path, yaml.as_str());
    if !websocket {
        if is_links {
            return Route::Document(Document::Links);
        } else if is_yaml {
            return Route::Document(Document::Yaml);
        } else if same_text(path, root_path.as_str()) {
            return Route::ByAgent;
        }
    }
    if starts_with_text(path, prefix.as_str()) && !is_links && !is_yaml {
        let target = strip_text(path, prefix.as_str());
        let mut url = match url_decode(target.as_str()) {
            Some(decoded) => decoded,
            None => target,
        };
        match query {
            Some(query) => {
                url.append(query.as_str());
            },
            None => {
                url.append("");
                proof {
                    reveal_strlit("");
                }
                assert(""@ =~= Seq::<char>::empty());
            },
        }
        Route::Proxy(url)
    } else if websocket {
        Route::Tunnel
    } else {
        Route::Answer(not_found())
    }
}

/// Decides on a request. One without a header `Upgrade` asks for no web socket.
pub fn route_with_header(
    upgrade: Option<String>,
    path: &str,
    query: Option<String>,
    config: &Config,
) -> (r: Route<String>)
    ensures
        r@ == route(
            upgrade matches Some(h) && asks_websocket(h@),
            path@,
            text_or(query, Seq::empty()),
            *config,
        ),
        upgrade matches Some(h) && is_ascii_chars(h@) ==> r@ == route(
            ascii_lowered(upgrade.unwrap()@) == "websocket"@,
            path@,
            text_or(query, Seq::empty()),
            *config,
        ),
{
    let websocket = match &upgrade {
        Some(h) => wants_websocket(h.as_str()),
        None => false,
    };
    route_request(websocket, path, query, config)
}

// ---------------------------------------------------------------------------
// Laws
// ---------------------------------------------------------------------------

/// A percent-encoded URL below the secret path is fetched as it is, with the query behind it. This
/// holds of URLs whose encoding is not the name of a document.
pub proof fn law_proxy_passes_on(
    websocket: bool,
    url: Seq<char>,
    query: Seq<char>,
    config: Config,
)
    requires
        url_encoded(url) != config.vless_text(),
        url_encoded(url) != config.clash_text(),
    ensures
        route(websocket, proxy_prefix(config) + url_encoded(url), query, config) == Route::Proxy(
            url + query,
        ),
{
    let prefix = proxy_prefix(config);
    let target = url_encoded(url);
    let path = prefix + target;
    assert(path.subrange(0, prefix.len() as int) =~= prefix);
    assert(path.skip(prefix.len() as int) =~= target);
    if path == links_path(config) {
        assert(links_path(config).skip(prefix.len() as int) =~= config.vless_text());
    }
    if path == yaml_path(config) {
        assert(yaml_path(config).skip(prefix.len() as int) =~= config.clash_text());
    }
    assert(path.len() > root(config).len()) by {
        reveal_strlit("/");
    }
    law_url_decoding_undoes_encoding(url);
}

/// A web socket never gets a document, and every other request that is neither below the secret
/// path nor the path itself is not found.
pub proof fn law_strangers_get_nothing(
    websocket: bool,
    path: Seq<char>,
    query: Seq<char>,
    config: Config,
)
    ensures
        websocket ==> {
            let r = route(websocket, path, query, config);
            r is Tunnel || r is Proxy
        },
        !websocket && path != root(config) && !begins_with(path, proxy_prefix(config)) ==> route(
            websocket,
            path,
            query,
            config,
        ) == Route::Answer(missing()),
{
    let prefix = proxy_prefix(config);
    assert(links_path(config).subrange(0, prefix.len() as int) =~= prefix);
    assert(yaml_path(config).subrange(0, prefix.len() as int) =~= prefix);
}

/// A client whose user agent names it anywhere gets its document: the one for links where that name
/// stands in it, and the one in YAML where only the other does.
pub proof fn law_named_clients_get_their_documents(a: Seq<char>, b: Seq<char>, config: Config)
    ensures
        document_for(a + config.vless_text() + b, config) == Document::Links,
        (forall|x: Seq<char>, y: Seq<char>|
            a + config.clash_text() + b != #[trigger] (x + config.vless_text() + y)) ==> document_for(
            a + config.clash_text() + b,
            config,
        ) == Document::Yaml,
{
    law_part_is_anywhere(a + config.clash_text() + b, config.vless_text(), a, b);
    law_part_is_anywhere(a + config.clash_text() + b, config.clash_text(), a, b);
}

/// A document tells what the user agent names: links follow the one name, YAML the other and not
/// the first, and the page for people neither of them.
pub proof fn law_documents_tell_the_client(user_agent: Seq<char>, config: Config)
    ensures
        match document_for(user_agent, config) {
            Document::Links => exists|x: Seq<char>, y: Seq<char>|
                user_agent == #[trigger] (x + config.vless_text() + y),
            Document::Yaml => {
                &&& exists|x: Seq<char>, y: Seq<char>|
                    user_agent == #[trigger] (x + config.clash_text() + y)
                &&& forall|x: Seq<char>, y: Seq<char>|
                    user_agent != #[trigger] (x + config.vless_text() + y)
            },
            Document::Tips => {
                &&& forall|x: Seq<char>, y: Seq<char>|
                    user_agent != #[trigger] (x + config.clash_text() + y)
                &&& forall|x: Seq<char>, y: Seq<char>|
                    user_agent != #[trigger] (x + config.vless_text() + y)
            },
        },
{
    let none = Seq::<char>::empty();
    law_part_is_anywhere(user_agent, config.vless_text(), none, none);
    law_part_is_anywhere(user_agent, config.clash_text(), none, none);
    assert forall|x: Seq<char>, y: Seq<char>|
        user_agent == #[trigger] (x + config.clash_text() + y) implies has_part(
        user_agent,
        config.clash_text(),
    ) by {
        law_part_is_anywhere(user_agent, config.clash_text(), x, y);
    }
    assert forall|x: Seq<char>, y: Seq<char>|
        user_agent == #[trigger] (x + config.vless_text() + y) implies has_part(
        user_agent,
        config.vless_text(),
    ) by {
        law_part_is_anywhere(user_agent, config.vless_text(), x, y);
    }
}

/// Below the percent-encoded secret path, requests that ask for no web socket get the documents by
/// the names of the clients, and the path itself the one for the user agent. The same paths open
/// tunnels for those that do.
pub proof fn law_documents_have_their_paths(query: Seq<char>, config: Config)
    ensures
        ({
            let path = "/"@ + url_encoded(config.sub_path@);
            let links = path + "/"@ + config.vless_text();
            let other = path + "/"@ + config.clash_text();
            &&& route(false, links, query, config) == Route::<Seq<char>>::Document(Document::Links)
            &&& config.vless_text() != config.clash_text() ==> route(false, other, query, config)
                == Route::<Seq<char>>::Document(Document::Yaml)
            &&& route(false, path, query, config) == Route::<Seq<char>>::ByAgent
            &&& route(true, links, query, config) == Route::<Seq<char>>::Tunnel
            &&& route(true, other, query, config) == Route::<Seq<char>>::Tunnel
            &&& route(true, path, query, config) == Route::<Seq<char>>::Tunnel
        }),
{
    reveal_strlit("/");
    let path = "/"@ + url_encoded(config.sub_path@);
    let n: int = path.len() as int + 1;
    let links = path + "/"@ + config.vless_text();
    let other = path + "/"@ + config.clash_text();
    assert(links.skip(n) =~= config.vless_text());
    assert(other.skip(n) =~= config.clash_text());
    assert(links.len() > path.len() && other.len() > path.len());
}

/// Whatever stands below the secret path and names no document is fetched, web socket or not: what
/// decoding makes of it, or else itself, with the query behind it.
pub proof fn law_target_is_fetched(
    websocket: bool,
    target: Seq<char>,
    query: Seq<char>,
    config: Config,
)
    requires
        target != config.vless_text(),
        target != config.clash_text(),
    ensures
        ({
            let r = route(
                websocket,
                "/"@ + url_encoded(config.sub_path@) + "/"@ + target,
                query,
                config,
            );
            &&& url_decoded(target) matches Some(t) ==> r == Route::Proxy(t + query)
            &&& url_decoded(target) is None ==> r == Route::Proxy(target + query)
        }),
{
    reveal_strlit("/");
    let prefix = "/"@ + url_encoded(config.sub_path@) + "/"@;
    let path = prefix + target;
    let n: int = prefix.len() as int;
    assert(path.subrange(0, n) =~= prefix);
    assert(path.skip(n) =~= target);
    assert((prefix + config.vless_text()).skip(n) =~= config.vless_text());
    assert((prefix + config.clash_text()).skip(n) =~= config.clash_text());
    assert(path.len() > root(config).len());
}

/// Every other path opens a tunnel for a web socket and finds nothing otherwise.
pub proof fn law_other_requests(websocket: bool, path: Seq<char>, query: Seq<char>, config: Config)
    requires
        path != "/"@ + url_encoded(config.sub_path@),
        forall|y: Seq<char>|
            path != #[trigger] ("/"@ + url_encoded(config.sub_path@) + "/"@ + y),
    ensures
        route(websocket, path, query, config) == (if websocket {
            Route::<Seq<char>>::Tunnel
        } else {
            Route::Answer(Reply::Error { message: "Not Found"@, status: 404 })
        }),
{
    let prefix = "/"@ + url_encoded(config.sub_path@) + "/"@;
    law_prefix_is_in_front(path, prefix, Seq::empty());
    assert(path != prefix + config.vless_text());
    assert(path != prefix + config.clash_text());
}

/// What becomes of a request is seen as it is.
pub proof fn law_routes_are_seen_as_they_are(a: String, d: Document, reply: Reply<String>)
    ensures
        Route::<String>::Document(d)@ == Route::<Seq<char>>::Document(d),
        Route::<String>::ByAgent@ == Route::<Seq<char>>::ByAgent,
        Route::<String>::Tunnel@ == Route::<Seq<char>>::Tunnel,
        Route::Proxy(a)@ == Route::Proxy(a@),
        Route::Answer(reply)@ == Route::Answer(reply@),
{
}

} // verus!
