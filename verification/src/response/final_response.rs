//! The finalizer for responses: takes the classified outcome, the request
//! headers, and the configuration, and renders the one complete response
//! that answers the request. A missing status-code page falls back to a
//! built-in minimal page, so an answer always exists.
use vstd::prelude::*;

verus! {

use crate::assoc::assoc_insert;
use crate::assoc::assoc_lookup;
use crate::configuration::CfgView;
use crate::configuration::Configuration;
use crate::error::ServerError;
use crate::file::spec_mime;
use crate::headers::Headers;
use crate::htmlbuilder::HTMLBuilder;
use crate::htmlbuilder::default_head;
use crate::response::builder::ResponseBuilder;
use crate::response::builder::render_response;
use crate::response::builder::with_security_headers;
use crate::response::types::DirResponse;
use crate::response::types::FileResponse;
use crate::response::types::ResponseType;
use crate::response::utils::apply_extra_headers;
use crate::response::utils::insert_pairs;
use crate::response::utils::map_as_json_str;
use crate::response::utils::spec_map_json;
use crate::response::utils::spec_html;
use crate::response::utils::spec_vec_json;
use crate::response::utils::vec_as_json_str;
use crate::status::spec_reason;
use crate::status::valid_status;
use crate::store::ContentStore;
use crate::store::FilesView;
use crate::text::append_lit;
use crate::text::ascii_of;
use crate::text::clone_bytes;
use crate::text::dec_digits;
use crate::text::dec_vec;
use crate::text::lemma_seqs_view;
use crate::text::lit_vec;

/// The CORS header value carried over from the request headers, `null`
/// when none was put there.
pub open spec fn cors_value_of(req: Seq<(Seq<u8>, Seq<u8>)>) -> Seq<u8> {
    match assoc_lookup(req, ascii_of("Access-Control-Allow-Origin")) {
        Some(v) => v,
        None => ascii_of("null"),
    }
}

/// The headers every outcome gets, in order: the configured extra
/// headers, the time header, then the CORS header.
pub open spec fn spec_common_headers(cfg: CfgView, req: Seq<(Seq<u8>, Seq<u8>)>, t: u64) -> Seq<
    (Seq<u8>, Seq<u8>),
> {
    let h0 = Seq::<(Seq<u8>, Seq<u8>)>::empty();
    let h1 = if cfg.append_extra_headers {
        insert_pairs(h0, cfg.extra_headers)
    } else {
        h0
    };
    let h2 = if cfg.use_time_header {
        assoc_insert(h1, ascii_of("Time"), dec_digits(t as nat))
    } else {
        h1
    };
    assoc_insert(h2, ascii_of("Access-Control-Allow-Origin"), cors_value_of(req))
}

/// The security headers, when the configuration asks for them.
pub open spec fn spec_secure(cfg: CfgView, hs: Seq<(Seq<u8>, Seq<u8>)>) -> Seq<(Seq<u8>, Seq<u8>)> {
    if cfg.use_security_headers {
        with_security_headers(hs, cfg.allow_iframes)
    } else {
        hs
    }
}

/// The list items of a directory listing: each entry in its own `<li>`.
pub open spec fn entries_items(es: Seq<Seq<u8>>) -> Seq<Seq<u8>>
    decreases es.len(),
{
    if es.len() == 0 {
        seq![]
    } else {
        entries_items(es.drop_last()) + seq![ascii_of("<li>"), es.last(), ascii_of("</li>")]
    }
}

/// The body parts of a non-empty directory listing.
pub open spec fn listing_body(es: Seq<Seq<u8>>) -> Seq<Seq<u8>> {
    seq![ascii_of("<p>Directory contents:</p>"), ascii_of("<ul>")] + entries_items(es) + seq![
        ascii_of("</ul>"),
    ]
}

/// The body of a directory outcome: an HTML list or a JSON array, with an
/// "empty" note for a directory with no entries.
pub open spec fn dir_body(cfg: CfgView, es: Seq<Seq<u8>>) -> Seq<u8> {
    if !cfg.format_directory_listing_as_json {
        if es.len() == 0 {
            spec_html(default_head(), seq![ascii_of("<p>The requested directory is empty.</p>")])
        } else {
            spec_html(default_head(), listing_body(es))
        }
    } else {
        if es.len() == 0 {
            spec_map_json(
                seq![(ascii_of("response"), ascii_of("The requested directory is empty."))],
            )
        } else {
            spec_vec_json(es)
        }
    }
}

/// The status of a directory outcome: an empty directory is a miss.
pub open spec fn dir_code(es: Seq<Seq<u8>>) -> u16 {
    if es.len() == 0 {
        404
    } else {
        200
    }
}

/// The file a status-code page is read from.
pub open spec fn fallback_page_name(code: u16) -> Seq<u8> {
    dec_digits(code as nat) + ascii_of(".html")
}

/// The body of a fallback outcome: the status-code page from the content
/// root, or the built-in minimal page when it is missing.
pub open spec fn fallback_body(files: FilesView, code: u16) -> Seq<u8> {
    match assoc_lookup(files, fallback_page_name(code)) {
        Some(p) => p,
        None => spec_html(
            default_head(),
            seq![
                ascii_of("<p>") + dec_digits(code as nat) + seq![32u8] + spec_reason(code) + ascii_of(
                    "</p>",
                ),
            ],
        ),
    }
}

/// The status a built response carries.
pub open spec fn spec_build_code(status: u16, rt: ResponseType) -> u16 {
    match rt {
        ResponseType::Dir(d) => dir_code(d.entries.deep_view()),
        _ => status,
    }
}

/// The body a built response carries.
pub open spec fn spec_build_body(cfg: CfgView, status: u16, rt: ResponseType, files: FilesView) -> Seq<u8> {
    match rt {
        ResponseType::File(f) => f.file_content@,
        ResponseType::Dir(d) => dir_body(cfg, d.entries.deep_view()),
        ResponseType::Fallback => fallback_body(files, status),
    }
}

/// The headers a built response carries: the common ones, the content
/// type and length of the outcome, then the security headers.
pub open spec fn spec_build_headers(
    cfg: CfgView,
    status: u16,
    req: Seq<(Seq<u8>, Seq<u8>)>,
    rt: ResponseType,
    files: FilesView,
    t: u64,
) -> Seq<(Seq<u8>, Seq<u8>)> {
    let h = spec_common_headers(cfg, req, t);
    let body = spec_build_body(cfg, status, rt, files);
    let ct = match rt {
        ResponseType::File(f) => spec_mime(f.file_ext@),
        ResponseType::Dir(d) => if cfg.format_directory_listing_as_json {
            ascii_of("application/json")
        } else {
            ascii_of("text/html")
        },
        ResponseType::Fallback => ascii_of("text/html"),
    };
    spec_secure(
        cfg,
        assoc_insert(
            assoc_insert(h, ascii_of("Content-Type"), ct),
            ascii_of("Content-Length"),
            dec_digits(body.len() as nat),
        ),
    )
}

/// A whole built response.
pub open spec fn spec_build(
    cfg: CfgView,
    status: u16,
    req: Seq<(Seq<u8>, Seq<u8>)>,
    rt: ResponseType,
    files: FilesView,
    t: u64,
) -> Seq<u8> {
    render_response(
        crate::http::spec_protocol(cfg.http_protocol_version),
        spec_build_code(status, rt),
        spec_build_headers(cfg, status, req, rt, files, t),
        spec_build_body(cfg, status, rt, files),
    )
}

/// The rendering of a file response: the file's bytes under its MIME
/// type, with the given status.
pub open spec fn spec_file_render(
    cfg: CfgView,
    status: u16,
    req: Seq<(Seq<u8>, Seq<u8>)>,
    ext: Seq<u8>,
    content: Seq<u8>,
    t: u64,
) -> Seq<u8> {
    render_response(
        crate::http::spec_protocol(cfg.http_protocol_version),
        status,
        spec_secure(
            cfg,
            assoc_insert(
                assoc_insert(
                    spec_common_headers(cfg, req, t),
                    ascii_of("Content-Type"),
                    spec_mime(ext),
                ),
                ascii_of("Content-Length"),
                dec_digits(content.len() as nat),
            ),
        ),
        content,
    )
}

/// The rendering of a fallback response: the status page from the content
/// root, or the built-in page.
pub open spec fn spec_fallback_render(
    cfg: CfgView,
    status: u16,
    req: Seq<(Seq<u8>, Seq<u8>)>,
    files: FilesView,
    t: u64,
) -> Seq<u8> {
    render_response(
        crate::http::spec_protocol(cfg.http_protocol_version),
        status,
        spec_secure(
            cfg,
            assoc_insert(
                assoc_insert(
                    spec_common_headers(cfg, req, t),
                    ascii_of("Content-Type"),
                    ascii_of("text/html"),
                ),
                ascii_of("Content-Length"),
                dec_digits(fallback_body(files, status).len() as nat),
            ),
        ),
        fallback_body(files, status),
    )
}

/// The rendering of a directory response: a listing in HTML or JSON, 404
/// when the directory is empty.
pub open spec fn spec_dir_render(
    cfg: CfgView,
    req: Seq<(Seq<u8>, Seq<u8>)>,
    entries: Seq<Seq<u8>>,
    t: u64,
) -> Seq<u8> {
    render_response(
        crate::http::spec_protocol(cfg.http_protocol_version),
        dir_code(entries),
        spec_secure(
            cfg,
            assoc_insert(
                assoc_insert(
                    spec_common_headers(cfg, req, t),
                    ascii_of("Content-Type"),
                    if cfg.format_directory_listing_as_json {
                        ascii_of("application/json")
                    } else {
                        ascii_of("text/html")
                    },
                ),
                ascii_of("Content-Length"),
                dec_digits(dir_body(cfg, entries).len() as nat),
            ),
        ),
        dir_body(cfg, entries),
    )
}

/// The "finalizer" struct for responses. Takes all the response data and
/// renders them into one complete response with `FinalResponse::build`.
pub struct FinalResponse<'a> {
    pub status_code: u16,
    pub req_headers: Option<Headers>,
    pub config: &'a Configuration,
    // wrapped in Option because the pipeline starts the builder before it
    // knows the outcome
    pub response_type: Option<ResponseType>,
}

impl<'a> FinalResponse<'a> {
    /// Set the status code.
    pub fn status_code(self, status_code: u16) -> (r: Self)
        ensures
            r.status_code == status_code,
            r.req_headers == self.req_headers,
            r.response_type == self.response_type,
            r.config == self.config,
    {
        Self { status_code, ..self }
    }

    /// Set the request headers.
    pub fn req_headers(self, req_headers: Headers) -> (r: Self)
        ensures
            r.req_headers == Some(req_headers),
            r.status_code == self.status_code,
            r.response_type == self.response_type,
            r.config == self.config,
    {
        Self { req_headers: Some(req_headers), ..self }
    }

    /// Set the outcome.
    pub fn response_type(self, response_type: ResponseType) -> (r: Self)
        ensures
            r.response_type == Some(response_type),
            r.status_code == self.status_code,
            r.req_headers == self.req_headers,
            r.config == self.config,
    {
        Self { response_type: Some(response_type), ..self }
    }

    /// Render the response. The outcome and the request headers must have
    /// been set, and the status must be one the server produces; the
    /// content root supplies status-code pages, and the clock value feeds
    /// the time header.
    #[verifier::rlimit(100)]
    pub fn build(self, store: &ContentStore, unixtime: u64) -> (r: Result<Vec<u8>, ServerError>)
        requires
            self.response_type is Some,
            self.req_headers is Some,
            valid_status(self.status_code),
        ensures
            r is Ok,
            r->Ok_0@ == spec_build(
                self.config@,
                self.status_code,
                self.req_headers->Some_0@,
                self.response_type->Some_0,
                store.files_spec(),
                unixtime,
            ),
    {
        let ghost cfg = self.config@;
        let ghost reqv = self.req_headers->Some_0@;
        let ghost rt = self.response_type->Some_0;
        let status = self.status_code;
        let req = match self.req_headers {
            Some(h) => h,
            None => Headers::new(),
        };
        let response_type = match self.response_type {
            Some(t) => t,
            None => ResponseType::Fallback,
        };
        let mut res = ResponseBuilder::new(self.config.clone());
        res.detect_protocol();
        if self.config.append_extra_headers {
            apply_extra_headers(&mut res, &self.config.extra_headers);
        }
        if self.config.use_time_header {
            proof {
                reveal_strlit("Time");
            }
            res.add_header(lit_vec("Time"), dec_vec(unixtime));
        }
        proof {
            reveal_strlit("Access-Control-Allow-Origin");
            reveal_strlit("null");
        }
        let cors_key = lit_vec("Access-Control-Allow-Origin");
        let cors_val = match req.get(&cors_key) {
            Some(v) => clone_bytes(v),
            None => lit_vec("null"),
        };
        res.add_header(cors_key, cors_val);
        proof {
            assert(res.headers@ == spec_common_headers(cfg, reqv, unixtime));
            reveal_strlit("Content-Type");
            reveal_strlit("Content-Length");
        }
        match response_type {
            ResponseType::File(f) => {
                res.add_header(lit_vec("Content-Type"), crate::file::find_mime_type(&f.file_ext));
                res.add_header(
                    lit_vec("Content-Length"),
                    dec_vec(f.file_content.len() as u64),
                );
                if self.config.use_security_headers {
                    res.apply_security_headers();
                }
                res.status_code(status);
                res.body(f.file_content);
            },
            ResponseType::Dir(d) => {
                let code: u16;
                let body: Vec<u8>;
                if !self.config.format_directory_listing_as_json {
                    let mut html = HTMLBuilder::new();
                    if d.entries.len() == 0 {
                        proof {
                            reveal_strlit("<p>The requested directory is empty.</p>");
                        }
                        html.add_to_body(lit_vec("<p>The requested directory is empty.</p>"));
                        code = 404;
                        proof {
                            assert(html.body_spec() =~= seq![
                                ascii_of("<p>The requested directory is empty.</p>"),
                            ]);
                        }
                    } else {
                        proof {
                            reveal_strlit("<p>Directory contents:</p>");
                            reveal_strlit("<ul>");
                            reveal_strlit("</ul>");
                            lemma_seqs_view(d.entries);
                        }
                        html.add_to_body(lit_vec("<p>Directory contents:</p>"));
                        html.add_to_body(lit_vec("<ul>"));
                        let ghost es = d.entries.deep_view();
                        let ghost start = html.body_spec();
                        proof {
                            assert(entries_items(es.subrange(0, 0)) =~= Seq::<Seq<u8>>::empty());
                            assert(start =~= start + entries_items(es.subrange(0, 0)));
                        }
                        let mut i: usize = 0;
                        while i < d.entries.len()
                            invariant
                                0 <= i <= d.entries@.len(),
                                es == d.entries.deep_view(),
                                es.len() == d.entries@.len(),
                                forall|j: int|
                                    0 <= j < d.entries@.len() ==> #[trigger] es[j]
                                        == d.entries@[j]@,
                                html.body_spec() == start + entries_items(es.subrange(0, i as int)),
                                html.head_spec() == default_head(),
                            decreases d.entries@.len() - i,
                        {
                            proof {
                                reveal_strlit("<li>");
                                reveal_strlit("</li>");
                            }
                            html.add_to_body(lit_vec("<li>"));
                            html.add_to_body(clone_bytes(&d.entries[i]));
                            html.add_to_body(lit_vec("</li>"));
                            proof {
                                assert(es.subrange(0, i + 1).drop_last() =~= es.subrange(
                                    0,
                                    i as int,
                                ));
                                assert(es.subrange(0, i + 1).last() == es[i as int]);
                                assert(html.body_spec() =~= start + entries_items(
                                    es.subrange(0, i + 1),
                                ));
                            }
                            i = i + 1;
                        }
                        html.add_to_body(lit_vec("</ul>"));
                        code = 200;
                        proof {
                            assert(es.subrange(0, es.len() as int) =~= es);
                            assert(html.body_spec() =~= listing_body(es));
                        }
                    }
                    body = html.construct();
                    proof {
                        reveal_strlit("text/html");
                    }
                    res.add_header(lit_vec("Content-Type"), lit_vec("text/html"));
                } else {
                    if d.entries.len() == 0 {
                        proof {
                            reveal_strlit("response");
                            reveal_strlit("The requested directory is empty.");
                        }
                        let mut pairs: Vec<(Vec<u8>, Vec<u8>)> = Vec::new();
                        pairs.push(
                            (
                                lit_vec("response"),
                                lit_vec("The requested directory is empty."),
                            ),
                        );
                        proof {
                            crate::assoc::lemma_kv_view(pairs);
                            assert(pairs@[0].1.deep_view() =~= pairs@[0].1@);
                            assert(pairs.deep_view() =~= seq![
                                (
                                    ascii_of("response"),
                                    ascii_of("The requested directory is empty."),
                                ),
                            ]);
                        }
                        body = map_as_json_str(&pairs);
                        code = 404;
                    } else {
                        body = vec_as_json_str(&d.entries);
                        code = 200;
                    }
                    proof {
                        reveal_strlit("application/json");
                    }
                    res.add_header(lit_vec("Content-Type"), lit_vec("application/json"));
                }
                res.add_header(lit_vec("Content-Length"), dec_vec(body.len() as u64));
                if self.config.use_security_headers {
                    res.apply_security_headers();
                }
                res.status_code(code);
                res.body(body);
            },
            ResponseType::Fallback => {
                let mut name = dec_vec(status as u64);
                proof {
                    reveal_strlit(".html");
                }
                append_lit(&mut name, ".html");
                let body: Vec<u8> = match store.get_file(&name) {
                    Some(p) => clone_bytes(p),
                    None => {
                        proof {
                            reveal_strlit("<p>");
                            reveal_strlit("</p>");
                        }
                        let mut line = lit_vec("<p>");
                        crate::text::append_dec(&mut line, status as u64);
                        line.push(32);
                        let reason = crate::status::reason_vec(status);
                        crate::text::append_bytes(&mut line, &reason);
                        append_lit(&mut line, "</p>");
                        proof {
                            assert(line@ =~= ascii_of("<p>") + dec_digits(status as nat) + seq![
                                32u8,
                            ] + spec_reason(status) + ascii_of("</p>"));
                        }
                        let ghost lv = line@;
                        let mut html = HTMLBuilder::new();
                        html.add_to_body(line);
                        proof {
                            assert(html.body_spec() =~= seq![lv]);
                        }
                        html.construct()
                    },
                };
                proof {
                    reveal_strlit("text/html");
                }
                res.add_header(lit_vec("Content-Type"), lit_vec("text/html"));
                res.add_header(lit_vec("Content-Length"), dec_vec(body.len() as u64));
                if self.config.use_security_headers {
                    res.apply_security_headers();
                }
                res.status_code(status);
                res.body(body);
            },
        }
        let out = res.construct();
        proof {
            assert(out@ =~= spec_build(cfg, status, reqv, rt, store.files_spec(), unixtime));
        }
        Ok(out)
    }
}

/// Build a response around one file's content, or around the status-code
/// page when no file is given; a missing extension means HTML.
pub fn create_file_response(
    config: &Configuration,
    store: &ContentStore,
    req_headers: Headers,
    file_ext: Option<Vec<u8>>,
    file: Option<Vec<u8>>,
    status_code: u16,
    unixtime: u64,
) -> (r: Result<Vec<u8>, ServerError>)
    requires
        valid_status(status_code),
    ensures
        r is Ok,
        file is Some ==> r->Ok_0@ == spec_file_render(
            config@,
            status_code,
            req_headers@,
            if file_ext is Some {
                file_ext->Some_0@
            } else {
                ascii_of("html")
            },
            file->Some_0@,
            unixtime,
        ),
        file is None ==> r->Ok_0@ == spec_fallback_render(
            config@,
            status_code,
            req_headers@,
            store.files_spec(),
            unixtime,
        ),
{
    let fr = FinalResponse {
        status_code,
        req_headers: Some(req_headers),
        response_type: None,
        config,
    };
    match file {
        Some(content) => {
            let ext = match file_ext {
                Some(e) => e,
                None => {
                    proof {
                        reveal_strlit("html");
                    }
                    lit_vec("html")
                },
            };
            fr.response_type(
                ResponseType::File(FileResponse { file_ext: ext, file_content: content }),
            ).build(store, unixtime)
        },
        None => fr.response_type(ResponseType::Fallback).build(store, unixtime),
    }
}

/// Build a response listing a directory's entries.
pub fn create_dir_response(
    config: &Configuration,
    store: &ContentStore,
    req_headers: Headers,
    entries: Vec<Vec<u8>>,
    unixtime: u64,
) -> (r: Result<Vec<u8>, ServerError>)
    ensures
        r is Ok,
        r->Ok_0@ == spec_dir_render(config@, req_headers@, entries.deep_view(), unixtime),
{
    let fr = FinalResponse {
        status_code: 200,
        req_headers: Some(req_headers),
        response_type: None,
        config,
    };
    fr.response_type(ResponseType::Dir(DirResponse { entries })).build(store, unixtime)
}

} // verus!
