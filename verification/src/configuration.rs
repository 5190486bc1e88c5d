//! The server configuration: an immutable snapshot of policy shared by
//! every request. Construction happens once, at startup.
use vstd::prelude::*;

verus! {

use crate::http::HttpProtocolVersion;
use crate::text::ascii_of;
use crate::text::clone_bytes;
use crate::text::clone_pairs;
use crate::text::clone_seqs;
use crate::text::lemma_seqs_view;
use crate::text::lit_vec;

/// The configuration as mathematics: every list as a sequence of byte
/// strings.
pub struct CfgView {
    pub absolute_static_content_path: Seq<u8>,
    pub absolute_logs_path: Seq<u8>,
    pub save_logs: bool,
    pub addr: Seq<u8>,
    pub port: u32,
    pub multithreading: bool,
    pub num_of_threads: usize,
    pub http_protocol_version: HttpProtocolVersion,
    pub allowed_methods: Seq<Seq<u8>>,
    pub allow_all_origins: bool,
    pub allowed_origins: Seq<Seq<u8>>,
    pub use_security_headers: bool,
    pub use_time_header: bool,
    pub allow_iframes: bool,
    pub append_extra_headers: bool,
    pub extra_headers: Seq<(Seq<u8>, Seq<u8>)>,
    pub allow_directory_listing: bool,
    pub print_license_info: bool,
    pub cache_files: bool,
    pub format_directory_listing_as_json: bool,
}

/// The immutable policy snapshot every component reads.
pub struct Configuration {
    pub absolute_static_content_path: Vec<u8>,
    pub absolute_logs_path: Vec<u8>,
    pub save_logs: bool,
    pub addr: Vec<u8>,
    pub port: u32,
    pub multithreading: bool,
    pub num_of_threads: usize,
    pub http_protocol_version: HttpProtocolVersion,
    pub allowed_methods: Vec<Vec<u8>>,
    pub allow_all_origins: bool,
    pub allowed_origins: Vec<Vec<u8>>,
    pub use_security_headers: bool,
    pub use_time_header: bool,
    pub allow_iframes: bool,
    pub append_extra_headers: bool,
    pub extra_headers: Vec<(Vec<u8>, Vec<u8>)>,
    pub allow_directory_listing: bool,
    pub print_license_info: bool,
    pub cache_files: bool,
    pub format_directory_listing_as_json: bool,
}

impl View for Configuration {
    type V = CfgView;

    open spec fn view(&self) -> CfgView {
        CfgView {
            absolute_static_content_path: self.absolute_static_content_path@,
            absolute_logs_path: self.absolute_logs_path@,
            save_logs: self.save_logs,
            addr: self.addr@,
            port: self.port,
            multithreading: self.multithreading,
            num_of_threads: self.num_of_threads,
            http_protocol_version: self.http_protocol_version,
            allowed_methods: self.allowed_methods.deep_view(),
            allow_all_origins: self.allow_all_origins,
            allowed_origins: self.allowed_origins.deep_view(),
            use_security_headers: self.use_security_headers,
            use_time_header: self.use_time_header,
            allow_iframes: self.allow_iframes,
            append_extra_headers: self.append_extra_headers,
            extra_headers: self.extra_headers.deep_view(),
            allow_directory_listing: self.allow_directory_listing,
            print_license_info: self.print_license_info,
            cache_files: self.cache_files,
            format_directory_listing_as_json: self.format_directory_listing_as_json,
        }
    }
}

impl Clone for Configuration {
    /// Cloning keeps the whole snapshot.
    fn clone(&self) -> (r: Self)
        ensures
            r@ == self@,
    {
        Configuration {
            absolute_static_content_path: clone_bytes(&self.absolute_static_content_path),
            absolute_logs_path: clone_bytes(&self.absolute_logs_path),
            save_logs: self.save_logs,
            addr: clone_bytes(&self.addr),
            port: self.port,
            multithreading: self.multithreading,
            num_of_threads: self.num_of_threads,
            http_protocol_version: self.http_protocol_version,
            allowed_methods: clone_seqs(&self.allowed_methods),
            allow_all_origins: self.allow_all_origins,
            allowed_origins: clone_seqs(&self.allowed_origins),
            use_security_headers: self.use_security_headers,
            use_time_header: self.use_time_header,
            allow_iframes: self.allow_iframes,
            append_extra_headers: self.append_extra_headers,
            extra_headers: clone_pairs(&self.extra_headers),
            allow_directory_listing: self.allow_directory_listing,
            print_license_info: self.print_license_info,
            cache_files: self.cache_files,
            format_directory_listing_as_json: self.format_directory_listing_as_json,
        }
    }
}

impl Configuration {
    /// The stock configuration: serve `/var/www/static` on port 80 for
    /// every origin, with logs, caching and security headers on.
    pub fn read_from_vars() -> (r: Self)
        ensures
            r@.absolute_static_content_path == ascii_of("/var/www/static"),
            r@.absolute_logs_path == ascii_of("/var/www/logs"),
            r@.save_logs,
            r@.addr == ascii_of("0.0.0.0"),
            r@.port == 80,
            !r@.multithreading,
            r@.num_of_threads == 1,
            r@.http_protocol_version is OneDotOne,
            r@.allowed_methods == seq![ascii_of("GET")],
            r@.allow_all_origins,
            r@.allowed_origins == Seq::<Seq<u8>>::empty(),
            r@.use_security_headers,
            r@.use_time_header,
            !r@.allow_iframes,
            r@.append_extra_headers,
            r@.extra_headers == Seq::<(Seq<u8>, Seq<u8>)>::empty(),
            r@.allow_directory_listing,
            r@.print_license_info,
            r@.cache_files,
            !r@.format_directory_listing_as_json,
    {
        proof {
            reveal_strlit("/var/www/static");
            reveal_strlit("/var/www/logs");
            reveal_strlit("0.0.0.0");
            reveal_strlit("GET");
        }
        let mut methods: Vec<Vec<u8>> = Vec::new();
        methods.push(lit_vec("GET"));
        proof {
            lemma_seqs_view(methods);
            assert(methods.deep_view() =~= seq![ascii_of("GET")]);
        }
        let origins: Vec<Vec<u8>> = Vec::new();
        let extra: Vec<(Vec<u8>, Vec<u8>)> = Vec::new();
        proof {
            assert(origins.deep_view() =~= Seq::<Seq<u8>>::empty());
            assert(extra.deep_view() =~= Seq::<(Seq<u8>, Seq<u8>)>::empty());
        }
        Configuration {
            absolute_static_content_path: lit_vec("/var/www/static"),
            absolute_logs_path: lit_vec("/var/www/logs"),
            save_logs: true,
            addr: lit_vec("0.0.0.0"),
            port: 80,
            multithreading: false,
            num_of_threads: 1,
            http_protocol_version: HttpProtocolVersion::OneDotOne,
            allowed_methods: methods,
            allow_all_origins: true,
            allowed_origins: origins,
            use_security_headers: true,
            use_time_header: true,
            allow_iframes: false,
            append_extra_headers: true,
            extra_headers: extra,
            allow_directory_listing: true,
            print_license_info: true,
            cache_files: true,
            format_directory_listing_as_json: false,
        }
    }

    /// A configuration for exercising the core: content under `media`,
    /// only GET, only the `localhost` origin, everything optional off.
    pub fn test_config() -> (r: Self)
        ensures
            r@.absolute_static_content_path == ascii_of("media"),
            r@.absolute_logs_path == ascii_of("/var/www/logs"),
            !r@.save_logs,
            r@.addr == ascii_of("localhost"),
            r@.port == 0,
            !r@.multithreading,
            r@.num_of_threads == 1,
            r@.http_protocol_version is OneDotOne,
            r@.allowed_methods == seq![ascii_of("GET")],
            !r@.allow_all_origins,
            r@.allowed_origins == seq![ascii_of("localhost")],
            !r@.use_security_headers,
            !r@.use_time_header,
            !r@.allow_iframes,
            !r@.append_extra_headers,
            r@.extra_headers == Seq::<(Seq<u8>, Seq<u8>)>::empty(),
            r@.allow_directory_listing,
            !r@.print_license_info,
            !r@.cache_files,
            !r@.format_directory_listing_as_json,
    {
        proof {
            reveal_strlit("media");
            reveal_strlit("/var/www/logs");
            reveal_strlit("localhost");
            reveal_strlit("GET");
        }
        let mut methods: Vec<Vec<u8>> = Vec::new();
        methods.push(lit_vec("GET"));
        proof {
            lemma_seqs_view(methods);
            assert(methods.deep_view() =~= seq![ascii_of("GET")]);
        }
        let mut origins: Vec<Vec<u8>> = Vec::new();
        origins.push(lit_vec("localhost"));
        proof {
            lemma_seqs_view(origins);
            assert(origins.deep_view() =~= seq![ascii_of("localhost")]);
        }
        let extra: Vec<(Vec<u8>, Vec<u8>)> = Vec::new();
        proof {
            assert(extra.deep_view() =~= Seq::<(Seq<u8>, Seq<u8>)>::empty());
        }
        Configuration {
            absolute_logs_path: lit_vec("/var/www/logs"),
            absolute_static_content_path: lit_vec("media"),
            addr: lit_vec("localhost"),
            port: 0,
            allow_all_origins: false,
            allow_iframes: false,
            allowed_methods: methods,
            allowed_origins: origins,
            save_logs: false,
            multithreading: false,
            num_of_threads: 1,
            http_protocol_version: HttpProtocolVersion::OneDotOne,
            use_security_headers: false,
            append_extra_headers: false,
            extra_headers: extra,
            allow_directory_listing: true,
            print_license_info: false,
            use_time_header: false,
            cache_files: false,
            format_directory_listing_as_json: false,
        }
    }
}

/// What a caller may choose before the server starts: the bind address,
/// the port, and whether to print extra information.
pub struct Config {
    pub addr: Option<Vec<u8>>,
    pub port: Option<u16>,
    pub debug_info: bool,
}

} // verus!
