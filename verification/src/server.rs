//! The request pipeline: from the raw bytes of one request to the one
//! complete response that answers it, with short-circuit exits for every
//! failure. Every exit produces one complete response; partial responses
//! are never emitted.
use vstd::prelude::*;

verus! {

use crate::assoc::assoc_has;
use crate::assoc::assoc_insert;
use crate::assoc::assoc_lookup;
use crate::configuration::CfgView;
use crate::configuration::Configuration;
use crate::cors::Cors;
use crate::cors::origin_listed;
use crate::cors::spec_method_allowed;
use crate::error::ServerError;
use crate::file::get_file_extension;
use crate::file::spec_extension;
use crate::file::CachedFile;
use crate::headers::parsed_headers;
use crate::headers::Headers;
use crate::http::spec_protocol;
use crate::http::HttpProtocolVersion;
use crate::response::builder::status_line_code;
use crate::response::builder::lemma_status_line_round_trip;
use crate::response::builder::render_response;
use crate::response::final_response::dir_body;
use crate::response::final_response::dir_code;
use crate::response::final_response::fallback_body;
use crate::response::final_response::spec_common_headers;
use crate::response::final_response::spec_secure;
use crate::response::final_response::FinalResponse;
use crate::response::types::DirResponse;
use crate::response::types::FileResponse;
use crate::response::types::ResponseType;
use crate::socket::parse_utf8;
use crate::socket::read_stream;
use crate::socket::utf8_ok;
use crate::state::AppState;
use crate::state::CacheView;
use crate::store::ContentStore;
use crate::store::DirsView;
use crate::store::FilesView;
use crate::text::ascii_of;
use crate::text::bytes_starts_with;
use crate::text::bytes_eq;
use crate::text::clone_bytes;
use crate::text::clone_seqs;
use crate::text::dec_digits;
use crate::text::lemma_seqs_view;
use crate::text::lit_vec;
use crate::time::generate_unixtime;
use crate::uri::find_urn;
use crate::uri::spec_find_urn;
use vstd::utf8::valid_utf8;

/// What one request ends in: a file to serve, a directory to list, or a
/// status-code page.
pub enum SpecOutcome {
    File { ext: Seq<u8>, content: Seq<u8> },
    Listing { entries: Seq<Seq<u8>> },
    Fallback { code: u16 },
}

/// A request is rejected outright when its buffer is not UTF-8 text or
/// carries no header at all.
pub open spec fn early_reject(input: Seq<u8>) -> bool {
    !valid_utf8(input) || parsed_headers(input).len() == 0
}

/// The CORS response header value: `*` under allow-all, the request's
/// origin when the policy lists it, `null` otherwise.
pub open spec fn spec_cors_header_value(cfg: CfgView, h0: Seq<(Seq<u8>, Seq<u8>)>) -> Seq<u8> {
    let origin = match assoc_lookup(h0, ascii_of("Origin")) {
        Some(o) => o,
        None => ascii_of("null"),
    };
    if cfg.allow_all_origins {
        ascii_of("*")
    } else if origin_listed(origin, cfg.allowed_origins) {
        origin
    } else {
        ascii_of("null")
    }
}

/// The request headers handed to the assembler: the parsed ones plus the
/// computed CORS header.
pub open spec fn spec_req_headers(cfg: CfgView, input: Seq<u8>) -> Seq<(Seq<u8>, Seq<u8>)> {
    let h0 = parsed_headers(input);
    assoc_insert(h0, ascii_of("Access-Control-Allow-Origin"), spec_cors_header_value(cfg, h0))
}

/// The whole pipeline as one function: the outcome of a request and the
/// cache contents after it.
pub open spec fn spec_serve(
    cfg: CfgView,
    input: Seq<u8>,
    files: FilesView,
    dirs: DirsView,
    cache: Option<CacheView>,
) -> (SpecOutcome, Option<CacheView>) {
    if early_reject(input) {
        (SpecOutcome::Fallback { code: 400 }, cache)
    } else if !spec_method_allowed(input, cfg.allowed_methods) {
        (SpecOutcome::Fallback { code: 405 }, cache)
    } else if spec_find_urn(input) is None {
        (SpecOutcome::Fallback { code: 400 }, cache)
    } else {
        let urn = spec_find_urn(input)->Some_0;
        if assoc_has(dirs, urn) {
            if cfg.allow_directory_listing {
                (SpecOutcome::Listing { entries: assoc_lookup(dirs, urn)->Some_0 }, cache)
            } else {
                (SpecOutcome::Fallback { code: 404 }, cache)
            }
        } else if cfg.cache_files {
            if cache is None {
                (SpecOutcome::Fallback { code: 500 }, cache)
            } else if assoc_lookup(cache->Some_0, urn) is Some {
                let e = assoc_lookup(cache->Some_0, urn)->Some_0;
                (SpecOutcome::File { ext: e.0, content: e.1 }, cache)
            } else if assoc_lookup(files, urn) is None {
                (SpecOutcome::Fallback { code: 404 }, cache)
            } else {
                let content = assoc_lookup(files, urn)->Some_0;
                if valid_utf8(content) {
                    (
                        SpecOutcome::File { ext: spec_extension(urn), content },
                        Some(
                            assoc_insert(cache->Some_0, urn, (spec_extension(urn), content)),
                        ),
                    )
                } else {
                    (SpecOutcome::Fallback { code: 500 }, cache)
                }
            }
        } else {
            if assoc_lookup(files, urn) is None {
                (SpecOutcome::Fallback { code: 404 }, cache)
            } else {
                let content = assoc_lookup(files, urn)->Some_0;
                if valid_utf8(content) {
                    (SpecOutcome::File { ext: spec_extension(urn), content }, cache)
                } else {
                    (SpecOutcome::Fallback { code: 500 }, cache)
                }
            }
        }
    }
}

/// The status code of an outcome.
pub open spec fn outcome_code(o: SpecOutcome) -> u16 {
    match o {
        SpecOutcome::File { ext, content } => 200,
        SpecOutcome::Listing { entries } => dir_code(entries),
        SpecOutcome::Fallback { code } => code,
    }
}

/// The body of an outcome.
pub open spec fn outcome_body(cfg: CfgView, files: FilesView, o: SpecOutcome) -> Seq<u8> {
    match o {
        SpecOutcome::File { ext, content } => content,
        SpecOutcome::Listing { entries } => dir_body(cfg, entries),
        SpecOutcome::Fallback { code } => fallback_body(files, code),
    }
}

/// The Content-Type of an outcome.
pub open spec fn outcome_content_type(cfg: CfgView, o: SpecOutcome) -> Seq<u8> {
    match o {
        SpecOutcome::File { ext, content } => crate::file::spec_mime(ext),
        SpecOutcome::Listing { entries } => if cfg.format_directory_listing_as_json {
            ascii_of("application/json")
        } else {
            ascii_of("text/html")
        },
        SpecOutcome::Fallback { code } => ascii_of("text/html"),
    }
}

/// The request headers the assembler sees: none at all when the request
/// was rejected before they were parsed.
pub open spec fn spec_serve_req_pairs(cfg: CfgView, input: Seq<u8>) -> Seq<(Seq<u8>, Seq<u8>)> {
    if early_reject(input) {
        Seq::<(Seq<u8>, Seq<u8>)>::empty()
    } else {
        spec_req_headers(cfg, input)
    }
}

/// The headers of the response to one request, given the clock value `t`.
pub open spec fn spec_serve_headers(
    cfg: CfgView,
    input: Seq<u8>,
    files: FilesView,
    dirs: DirsView,
    cache: Option<CacheView>,
    t: u64,
) -> Seq<(Seq<u8>, Seq<u8>)> {
    let o = spec_serve(cfg, input, files, dirs, cache).0;
    let req = spec_serve_req_pairs(cfg, input);
    let body = outcome_body(cfg, files, o);
    spec_secure(
        cfg,
        assoc_insert(
            assoc_insert(
                spec_common_headers(cfg, req, t),
                ascii_of("Content-Type"),
                outcome_content_type(cfg, o),
            ),
            ascii_of("Content-Length"),
            dec_digits(body.len() as nat),
        ),
    )
}

/// The complete response to one request, given the clock value `t`.
pub open spec fn spec_serve_response(
    cfg: CfgView,
    input: Seq<u8>,
    files: FilesView,
    dirs: DirsView,
    cache: Option<CacheView>,
    t: u64,
) -> Seq<u8> {
    let o = spec_serve(cfg, input, files, dirs, cache).0;
    render_response(
        spec_protocol(cfg.http_protocol_version),
        outcome_code(o),
        spec_serve_headers(cfg, input, files, dirs, cache, t),
        outcome_body(cfg, files, o),
    )
}

/// Protocol tokens hold no space, so the status line parses back.
pub proof fn lemma_protocol_no_space(v: HttpProtocolVersion)
    ensures
        spec_protocol(v).len() > 0,
        forall|j: int| 0 <= j < spec_protocol(v).len() ==> spec_protocol(v)[j] != 32,
{
    reveal_strlit("HTTP/1.1");
    reveal_strlit("HTTP/2");
}

/// The status line of a served response reads back the outcome's code,
/// whatever the clock said.
pub proof fn lemma_serve_response_code(
    cfg: CfgView,
    input: Seq<u8>,
    files: FilesView,
    dirs: DirsView,
    cache: Option<CacheView>,
    t: u64,
)
    ensures
        status_line_code(spec_serve_response(cfg, input, files, dirs, cache, t)) == outcome_code(
            spec_serve(cfg, input, files, dirs, cache).0,
        ) as int,
{
    let o = spec_serve(cfg, input, files, dirs, cache).0;
    lemma_protocol_no_space(cfg.http_protocol_version);
    lemma_status_line_round_trip(
        spec_protocol(cfg.http_protocol_version),
        outcome_code(o),
        spec_serve_headers(cfg, input, files, dirs, cache, t),
        outcome_body(cfg, files, o),
    );
}

/// Whether the request starts with one of the allowed method tokens.
fn method_allowed_in(buf: &Vec<u8>, methods: &Vec<Vec<u8>>) -> (r: bool)
    ensures
        r == spec_method_allowed(buf@, methods.deep_view()),
{
    proof {
        lemma_seqs_view(*methods);
    }
    let ghost ms = methods.deep_view();
    let mut i: usize = 0;
    while i < methods.len()
        invariant
            0 <= i <= methods@.len(),
            ms == methods.deep_view(),
            ms.len() == methods@.len(),
            forall|j: int| 0 <= j < methods@.len() ==> #[trigger] ms[j] == methods@[j]@,
            forall|j: int| 0 <= j < i ==> !(#[trigger] ms[j]).is_prefix_of(buf@),
        decreases methods@.len() - i,
    {
        if bytes_starts_with(buf, &methods[i]) {
            proof {
                assert(ms[i as int].is_prefix_of(buf@));
            }
            return true;
        }
        i = i + 1;
    }
    false
}

/// Whether an origin list names an origin.
fn origin_in(origin: &Vec<u8>, origins: &Vec<Vec<u8>>) -> (r: bool)
    ensures
        r == origin_listed(origin@, origins.deep_view()),
{
    proof {
        lemma_seqs_view(*origins);
    }
    let ghost os = origins.deep_view();
    let mut i: usize = 0;
    while i < origins.len()
        invariant
            0 <= i <= origins@.len(),
            os == origins.deep_view(),
            os.len() == origins@.len(),
            forall|j: int| 0 <= j < origins@.len() ==> #[trigger] os[j] == origins@[j]@,
            forall|j: int| 0 <= j < i ==> #[trigger] os[j] != origin@,
        decreases origins@.len() - i,
    {
        if bytes_eq(&origins[i], origin) {
            proof {
                assert(origin_listed(origin@, os)) by {
                    assert((i as int) < os.len() && os[i as int] == origin@);
                }
            }
            return true;
        }
        i = i + 1;
    }
    false
}

/// Serve one request: parse it, enforce the access policy, resolve the
/// path against the content root, consult the cache when it is on, and
/// assemble the one response that answers it.
#[verifier::rlimit(100)]
pub fn serve_request(
    config: &Configuration,
    input: &[u8],
    store: &ContentStore,
    state: &mut AppState,
) -> (r: Result<Vec<u8>, ServerError>)
    ensures
        r is Ok,
        final(state).cache_spec() == spec_serve(
            config@,
            input@,
            store.files_spec(),
            store.dirs_spec(),
            old(state).cache_spec(),
        ).1,
        exists|t: u64|
            r->Ok_0@ == spec_serve_response(
                config@,
                input@,
                store.files_spec(),
                store.dirs_spec(),
                old(state).cache_spec(),
                t,
            ),
        status_line_code(r->Ok_0@) == outcome_code(
            spec_serve(
                config@,
                input@,
                store.files_spec(),
                store.dirs_spec(),
                old(state).cache_spec(),
            ).0,
        ) as int,
{
    let ghost cfg = config@;
    let ghost iv = input@;
    let ghost files = store.files_spec();
    let ghost dirs = store.dirs_spec();
    let ghost cache0 = state.cache_spec();
    let unixtime = generate_unixtime();
    let final_response = FinalResponse {
        status_code: 200,
        req_headers: None,
        response_type: None,
        config,
    };
    // default to the fallback outcome, the most common one
    let final_response = final_response.response_type(ResponseType::Fallback);

    let (mut req_headers, buf) = match read_stream(input) {
        Ok(pair) => pair,
        Err(status) => {
            let out = final_response.req_headers(Headers::new()).status_code(status).build(
                store,
                unixtime,
            );
            proof {
                assert(out->Ok_0@ == spec_serve_response(cfg, iv, files, dirs, cache0, unixtime));
                lemma_serve_response_code(cfg, iv, files, dirs, cache0, unixtime);
            }
            return out;
        },
    };

    proof {
        reveal_strlit("Origin");
        reveal_strlit("null");
        reveal_strlit("*");
        reveal_strlit("Access-Control-Allow-Origin");
    }
    let origin_key = lit_vec("Origin");
    let origin = match req_headers.get(&origin_key) {
        Some(v) => clone_bytes(v),
        None => lit_vec("null"),
    };
    let cors_value = if config.allow_all_origins {
        lit_vec("*")
    } else if origin_in(&origin, &config.allowed_origins) {
        origin
    } else {
        lit_vec("null")
    };
    req_headers.insert(lit_vec("Access-Control-Allow-Origin"), cors_value);
    proof {
        assert(req_headers@ == spec_req_headers(cfg, iv));
    }

    let buf_utf8 = match parse_utf8(&req_headers, &buf) {
        Ok(text) => text,
        Err((headers, status)) => {
            // unreachable: the buffer was already checked while reading
            let out = final_response.req_headers(headers).status_code(status).build(
                store,
                unixtime,
            );
            return out;
        },
    };

    let final_response = final_response.req_headers(req_headers);

    if !method_allowed_in(&buf_utf8, &config.allowed_methods) {
        let out = final_response.status_code(405).build(store, unixtime);
        proof {
            assert(out->Ok_0@ == spec_serve_response(cfg, iv, files, dirs, cache0, unixtime));
            lemma_serve_response_code(cfg, iv, files, dirs, cache0, unixtime);
        }
        return out;
    }

    let urn = match find_urn(&buf_utf8) {
        Some(urn) => urn,
        None => {
            let out = final_response.status_code(400).build(store, unixtime);
            proof {
                assert(out->Ok_0@ == spec_serve_response(cfg, iv, files, dirs, cache0, unixtime));
                lemma_serve_response_code(cfg, iv, files, dirs, cache0, unixtime);
            }
            return out;
        },
    };

    if store.is_dir(&urn) {
        if config.allow_directory_listing {
            let entries = clone_seqs(store.dir_entries(&urn).unwrap());
            let out = final_response.response_type(
                ResponseType::Dir(DirResponse { entries }),
            ).build(store, unixtime);
            proof {
                assert(out->Ok_0@ == spec_serve_response(cfg, iv, files, dirs, cache0, unixtime));
                lemma_serve_response_code(cfg, iv, files, dirs, cache0, unixtime);
            }
            return out;
        } else {
            let out = final_response.status_code(404).build(store, unixtime);
            proof {
                assert(out->Ok_0@ == spec_serve_response(cfg, iv, files, dirs, cache0, unixtime));
                lemma_serve_response_code(cfg, iv, files, dirs, cache0, unixtime);
            }
            return out;
        }
    }

    proof {
        reveal_strlit("index.html");
        assert(urn@.len() >= 1);
    }
    let file_ext = get_file_extension(&urn);

    if config.cache_files {
        if state.cached_files.is_none() {
            // an enabled cache that was never created is an internal fault
            let out = final_response.status_code(500).build(store, unixtime);
            proof {
                assert(out->Ok_0@ == spec_serve_response(cfg, iv, files, dirs, cache0, unixtime));
                lemma_serve_response_code(cfg, iv, files, dirs, cache0, unixtime);
            }
            return out;
        }
        let cached = state.cache_lookup(&urn);
        match cached {
            Some(cached_file) => {
                let f = FileResponse {
                    file_ext: clone_bytes(&cached_file.extension),
                    file_content: clone_bytes(&cached_file.content),
                };
                let out = final_response.response_type(ResponseType::File(f)).build(
                    store,
                    unixtime,
                );
                proof {
                    assert(out->Ok_0@ == spec_serve_response(
                        cfg,
                        iv,
                        files,
                        dirs,
                        cache0,
                        unixtime,
                    ));
                    lemma_serve_response_code(cfg, iv, files, dirs, cache0, unixtime);
                }
                return out;
            },
            None => {
                let content = match store.get_file(&urn) {
                    Some(c) => clone_bytes(c),
                    None => {
                        let out = final_response.status_code(404).build(store, unixtime);
                        proof {
                            assert(out->Ok_0@ == spec_serve_response(
                                cfg,
                                iv,
                                files,
                                dirs,
                                cache0,
                                unixtime,
                            ));
                            lemma_serve_response_code(cfg, iv, files, dirs, cache0, unixtime);
                        }
                        return out;
                    },
                };
                if !utf8_ok(content.as_slice()) {
                    let out = final_response.status_code(500).build(store, unixtime);
                    proof {
                        assert(out->Ok_0@ == spec_serve_response(
                            cfg,
                            iv,
                            files,
                            dirs,
                            cache0,
                            unixtime,
                        ));
                        lemma_serve_response_code(cfg, iv, files, dirs, cache0, unixtime);
                    }
                    return out;
                }
                state.cache_insert(
                    clone_bytes(&urn),
                    CachedFile {
                        extension: clone_bytes(&file_ext),
                        content: clone_bytes(&content),
                    },
                );
                let f = FileResponse { file_ext, file_content: content };
                let out = final_response.response_type(ResponseType::File(f)).build(
                    store,
                    unixtime,
                );
                proof {
                    assert(out->Ok_0@ == spec_serve_response(
                        cfg,
                        iv,
                        files,
                        dirs,
                        cache0,
                        unixtime,
                    ));
                    lemma_serve_response_code(cfg, iv, files, dirs, cache0, unixtime);
                }
                return out;
            },
        }
    }

    let content = match store.get_file(&urn) {
        Some(c) => clone_bytes(c),
        None => {
            let out = final_response.status_code(404).build(store, unixtime);
            proof {
                assert(out->Ok_0@ == spec_serve_response(cfg, iv, files, dirs, cache0, unixtime));
                lemma_serve_response_code(cfg, iv, files, dirs, cache0, unixtime);
            }
            return out;
        },
    };
    if !utf8_ok(content.as_slice()) {
        let out = final_response.status_code(500).build(store, unixtime);
        proof {
            assert(out->Ok_0@ == spec_serve_response(cfg, iv, files, dirs, cache0, unixtime));
            lemma_serve_response_code(cfg, iv, files, dirs, cache0, unixtime);
        }
        return out;
    }
    let f = FileResponse { file_ext, file_content: content };
    let out = final_response.response_type(ResponseType::File(f)).build(store, unixtime);
    proof {
        assert(out->Ok_0@ == spec_serve_response(cfg, iv, files, dirs, cache0, unixtime));
        lemma_serve_response_code(cfg, iv, files, dirs, cache0, unixtime);
    }
    out
}

/// Law: every response carries a Content-Length header that holds exactly
/// the byte length of its body, whatever the request and the clock said.
pub proof fn lemma_content_length_matches_body(
    cfg: CfgView,
    input: Seq<u8>,
    files: FilesView,
    dirs: DirsView,
    cache: Option<CacheView>,
    t: u64,
)
    ensures
        assoc_lookup(
            spec_serve_headers(cfg, input, files, dirs, cache, t),
            ascii_of("Content-Length"),
        ) == Some(
            dec_digits(
                outcome_body(cfg, files, spec_serve(cfg, input, files, dirs, cache).0).len() as nat,
            ),
        ),
{
    reveal_strlit("Content-Length");
    reveal_strlit("X-Content-Type-Options");
    reveal_strlit("nosniff");
    reveal_strlit("X-Frame-Options");
    reveal_strlit("DENY");
    reveal_strlit("Cross-Origin-Resource-Policy");
    reveal_strlit("same-origin");
    let o = spec_serve(cfg, input, files, dirs, cache).0;
    let req = spec_serve_req_pairs(cfg, input);
    let body = outcome_body(cfg, files, o);
    let cl = ascii_of("Content-Length");
    let h1 = assoc_insert(
        spec_common_headers(cfg, req, t),
        ascii_of("Content-Type"),
        outcome_content_type(cfg, o),
    );
    let h2 = assoc_insert(h1, cl, dec_digits(body.len() as nat));
    crate::assoc::lemma_assoc_insert_lookup(h1, cl, dec_digits(body.len() as nat), cl);
    if cfg.use_security_headers {
        let k1 = ascii_of("X-Content-Type-Options");
        let k2 = ascii_of("X-Frame-Options");
        let k3 = ascii_of("Cross-Origin-Resource-Policy");
        assert(k1.len() == 22 && k2.len() == 15 && k3.len() == 28 && cl.len() == 14);
        let s1 = assoc_insert(h2, k1, ascii_of("nosniff"));
        crate::assoc::lemma_assoc_insert_lookup(h2, k1, ascii_of("nosniff"), cl);
        let s2 = if !cfg.allow_iframes {
            assoc_insert(s1, k2, ascii_of("DENY"))
        } else {
            s1
        };
        if !cfg.allow_iframes {
            crate::assoc::lemma_assoc_insert_lookup(s1, k2, ascii_of("DENY"), cl);
        }
        crate::assoc::lemma_assoc_insert_lookup(s2, k3, ascii_of("same-origin"), cl);
    }
}

/// Law: a request whose resolved path names a readable text file that no
/// cache entry shadows is answered 200, with the file's bytes as the
/// body; with caching on, the file is remembered.
pub proof fn lemma_existing_file_is_served(
    cfg: CfgView,
    input: Seq<u8>,
    files: FilesView,
    dirs: DirsView,
    cache: Option<CacheView>,
)
    requires
        !early_reject(input),
        spec_method_allowed(input, cfg.allowed_methods),
        spec_find_urn(input) is Some,
        !assoc_has(dirs, spec_find_urn(input)->Some_0),
        cfg.cache_files ==> cache is Some && assoc_lookup(
            cache->Some_0,
            spec_find_urn(input)->Some_0,
        ) is None,
        assoc_lookup(files, spec_find_urn(input)->Some_0) is Some,
        valid_utf8(assoc_lookup(files, spec_find_urn(input)->Some_0)->Some_0),
    ensures
        spec_serve(cfg, input, files, dirs, cache).0 == (SpecOutcome::File {
            ext: spec_extension(spec_find_urn(input)->Some_0),
            content: assoc_lookup(files, spec_find_urn(input)->Some_0)->Some_0,
        }),
        outcome_code(spec_serve(cfg, input, files, dirs, cache).0) == 200,
        outcome_body(cfg, files, spec_serve(cfg, input, files, dirs, cache).0) == assoc_lookup(
            files,
            spec_find_urn(input)->Some_0,
        )->Some_0,
        spec_serve(cfg, input, files, dirs, cache).1 == if cfg.cache_files {
            Some(
                assoc_insert(
                    cache->Some_0,
                    spec_find_urn(input)->Some_0,
                    (
                        spec_extension(spec_find_urn(input)->Some_0),
                        assoc_lookup(files, spec_find_urn(input)->Some_0)->Some_0,
                    ),
                ),
            )
        } else {
            cache
        },
{
}

/// Law: a request with an absent or empty header block is answered 400.
pub proof fn lemma_no_headers_is_rejected(
    cfg: CfgView,
    input: Seq<u8>,
    files: FilesView,
    dirs: DirsView,
    cache: Option<CacheView>,
)
    requires
        parsed_headers(input).len() == 0,
    ensures
        spec_serve(cfg, input, files, dirs, cache).0 == (SpecOutcome::Fallback { code: 400 }),
        spec_serve(cfg, input, files, dirs, cache).1 == cache,
{
}

/// Law: a request whose target would escape the content root is answered
/// 400, whatever the content root holds: the outcome never depends on the
/// files or directories, so nothing beyond the root is ever consulted.
pub proof fn lemma_traversal_is_rejected(
    cfg: CfgView,
    input: Seq<u8>,
    files: FilesView,
    dirs: DirsView,
    cache: Option<CacheView>,
)
    requires
        !early_reject(input),
        spec_method_allowed(input, cfg.allowed_methods),
        !crate::uri::spec_path_is_valid(crate::uri::raw_target(input)),
    ensures
        spec_serve(cfg, input, files, dirs, cache).0 == (SpecOutcome::Fallback { code: 400 }),
        spec_serve(cfg, input, files, dirs, cache).1 == cache,
{
}

/// Law: a request using a method outside the allow-list is answered 405,
/// whether or not its path is valid or present.
pub proof fn lemma_disallowed_method_is_rejected(
    cfg: CfgView,
    input: Seq<u8>,
    files: FilesView,
    dirs: DirsView,
    cache: Option<CacheView>,
)
    requires
        !early_reject(input),
        !spec_method_allowed(input, cfg.allowed_methods),
    ensures
        spec_serve(cfg, input, files, dirs, cache).0 == (SpecOutcome::Fallback { code: 405 }),
        spec_serve(cfg, input, files, dirs, cache).1 == cache,
{
}

/// Law: a request to a syntactically valid path that names neither a file
/// nor a directory, and that no cache entry covers, is answered 404.
pub proof fn lemma_missing_path_is_not_found(
    cfg: CfgView,
    input: Seq<u8>,
    files: FilesView,
    dirs: DirsView,
    cache: Option<CacheView>,
)
    requires
        !early_reject(input),
        spec_method_allowed(input, cfg.allowed_methods),
        spec_find_urn(input) is Some,
        !assoc_has(dirs, spec_find_urn(input)->Some_0),
        assoc_lookup(files, spec_find_urn(input)->Some_0) is None,
        cfg.cache_files ==> cache is Some && assoc_lookup(
            cache->Some_0,
            spec_find_urn(input)->Some_0,
        ) is None,
    ensures
        spec_serve(cfg, input, files, dirs, cache).0 == (SpecOutcome::Fallback { code: 404 }),
        spec_serve(cfg, input, files, dirs, cache).1 == cache,
{
}

/// Law: with caching enabled, serving the same request twice yields the
/// same extension and content the second time as the first, and the
/// second pass leaves the cache as the first pass left it.
pub proof fn lemma_cached_file_is_idempotent(
    cfg: CfgView,
    input: Seq<u8>,
    files: FilesView,
    dirs: DirsView,
    cache: Option<CacheView>,
)
    requires
        cfg.cache_files,
        cache is Some,
        spec_serve(cfg, input, files, dirs, cache).0 is File,
    ensures
        spec_serve(cfg, input, files, dirs, spec_serve(cfg, input, files, dirs, cache).1).0
            == spec_serve(cfg, input, files, dirs, cache).0,
        spec_serve(cfg, input, files, dirs, spec_serve(cfg, input, files, dirs, cache).1).1
            == spec_serve(cfg, input, files, dirs, cache).1,
{
    let urn = spec_find_urn(input)->Some_0;
    let c0 = cache->Some_0;
    if assoc_lookup(c0, urn) is Some {
    } else {
        let content = assoc_lookup(files, urn)->Some_0;
        let e = (spec_extension(urn), content);
        crate::assoc::lemma_assoc_insert_lookup(c0, urn, e, urn);
    }
}

/// One running server: its construction-time clock value, its access
/// policy, and its configuration.
pub struct Server {
    pub unixtime: u64,
    pub cors: Cors,
    pub config: Configuration,
}

impl Server {
    /// Build a server over a configuration. The configuration must name at
    /// least one method, and must either allow all origins or name at
    /// least one; a method token that is not an HTTP method is an error.
    pub fn new(config: Configuration) -> (r: Result<Server, ServerError>)
        requires
            config@.allowed_origins.len() > 0 || config@.allow_all_origins,
            config@.allowed_methods.len() > 0,
        ensures
            r is Ok <==> (forall|i: int|
                0 <= i < config@.allowed_methods.len() ==> crate::cors::is_http_method(
                    #[trigger] config@.allowed_methods[i],
                )),
            r is Ok ==> r->Ok_0.config@ == config@,
            r is Ok ==> r->Ok_0.cors.methods_spec() == Some(config@.allowed_methods),
            r is Ok ==> r->Ok_0.cors.origins_spec() == (if config@.allowed_origins.len() == 0 {
                None::<Seq<Seq<u8>>>
            } else {
                Some(config@.allowed_origins)
            }),
    {
        let unixtime = generate_unixtime();
        let origins = clone_seqs(&config.allowed_origins);
        let methods = clone_seqs(&config.allowed_methods);
        let cors = match Cors::new(origins, config.allow_all_origins, methods) {
            Ok(c) => c,
            Err(_) => {
                return Err(ServerError::UnknownError);
            },
        };
        Ok(Server { unixtime, cors, config })
    }

    /// Serve one request against a content root with this server's policy.
    pub fn serve_request(
        &self,
        input: &[u8],
        store: &ContentStore,
        state: &mut AppState,
    ) -> (r: Result<Vec<u8>, ServerError>)
        ensures
            r is Ok,
            final(state).cache_spec() == spec_serve(
                self.config@,
                input@,
                store.files_spec(),
                store.dirs_spec(),
                old(state).cache_spec(),
            ).1,
            exists|t: u64|
                r->Ok_0@ == spec_serve_response(
                    self.config@,
                    input@,
                    store.files_spec(),
                    store.dirs_spec(),
                    old(state).cache_spec(),
                    t,
                ),
            status_line_code(r->Ok_0@) == outcome_code(
                spec_serve(
                    self.config@,
                    input@,
                    store.files_spec(),
                    store.dirs_spec(),
                    old(state).cache_spec(),
                ).0,
            ) as int,
    {
        serve_request(&self.config, input, store, state)
    }
}

} // verus!
