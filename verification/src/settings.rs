//! The server's settings as read from its settings file, their defaults, and
//! the rules by which the logging switches are decided: explicit values,
//! log levels, level templates, and the switches given before the file is read.
use vstd::prelude::*;
use crate::text::str_is;

verus! {

/// One value or many: a settings field that may be written either way.
#[derive(Clone, Debug)]
pub enum OneOrMany<T> {
    One(T),
    Many(Vec<T>),
}

/// `std::slice::from_ref`: a slice of length one that holds the given value,
/// as std's documentation says.
pub assume_specification<T>[ core::slice::from_ref::<T> ](s: &T) -> (res: &[T])
    ensures
        res@ == seq![*s],
;

impl<T> OneOrMany<T> {
    /// The values held, in order.
    pub open spec fn items(&self) -> Seq<T> {
        match self {
            OneOrMany::One(t) => seq![*t],
            OneOrMany::Many(v) => v@,
        }
    }

    /// The values held, in order, as a slice.
    pub fn get(&self) -> (res: &[T])
        ensures
            res@ == self.items(),
    {
        match self {
            OneOrMany::One(t) => core::slice::from_ref(t),
            OneOrMany::Many(v) => v.as_slice(),
        }
    }

    /// The values held, in order, as a vector.
    pub fn _convert(self) -> (res: Vec<T>)
        ensures
            res@ == self.items(),
    {
        match self {
            OneOrMany::One(t) => {
                let mut v: Vec<T> = Vec::new();
                v.push(t);
                v
            },
            OneOrMany::Many(v) => v,
        }
    }
}

impl<T: Default> Default for OneOrMany<T> {
    /// One value, the default of `T`.
    fn default() -> (res: Self)
        ensures
            res matches OneOrMany::One(t) && call_ensures(T::default, (), t),
    {
        OneOrMany::One(T::default())
    }
}

/// The value a missing `address` list takes when the settings file is read:
/// no addresses.
pub fn def_one_or_many<T>() -> (res: OneOrMany<T>)
    ensures
        res matches OneOrMany::Many(v) && v@.len() == 0,
{
    OneOrMany::Many(Vec::new())
}

/// `true`, the value of a switch that defaults to on when the file is read.
pub fn def_true() -> (res: bool)
    ensures
        res == true,
{
    true
}

/// `false`, the value of a switch that defaults to off when the file is read.
pub fn def_false() -> (res: bool)
    ensures
        res == false,
{
    false
}

/// The directory served when the settings file names none: `"./"`.
pub fn def_serve_dir() -> (res: String)
    ensures
        res@ == seq!['.', '/'],
{
    let s = String::from_str("./");
    proof {
        reveal_strlit("./");
    }
    s
}

/// The largest file read in one piece when the file names none: 128 KiB.
pub fn def_max_file_read_size() -> (res: usize)
    ensures
        res == 128 * 1024,
{
    128 * 1024
}

/// The chunk size for larger files when the file names none: 128 KiB.
pub fn def_file_chunk_size() -> (res: usize)
    ensures
        res == 128 * 1024,
{
    128 * 1024
}

/// Certificate and key of one name served over TLS.
pub struct SniConfig {
    pub domain: String,
    pub cert: String,
    pub key: String,
}

impl Default for SniConfig {
    /// Empty domain, certificate and key.
    fn default() -> (res: Self)
        ensures
            res.domain@.len() == 0,
            res.cert@.len() == 0,
            res.key@.len() == 0,
    {
        SniConfig { domain: String::new(), cert: String::new(), key: String::new() }
    }
}

/// One listening socket with its own socket options.
pub struct Binding {
    pub address: String,
    pub backlog: Option<u32>,
    pub reuse_addr: Option<bool>,
    pub reuse_port: Option<bool>,
    pub nodelay: Option<bool>,
    pub recv_bufsize: Option<u32>,
    pub send_bufsize: Option<u32>,
}

impl Default for Binding {
    /// Empty address and no options.
    fn default() -> (res: Self)
        ensures
            res.address@.len() == 0,
            res.backlog is None,
            res.reuse_addr is None,
            res.reuse_port is None,
            res.nodelay is None,
            res.recv_bufsize is None,
            res.send_bufsize is None,
    {
        Binding {
            address: String::new(),
            backlog: None,
            reuse_addr: None,
            reuse_port: None,
            nodelay: None,
            recv_bufsize: None,
            send_bufsize: None,
        }
    }
}

/// Where and how the server listens.
pub struct NetworkSettings {
    pub binding: Vec<Binding>,
    pub address: OneOrMany<String>,
    pub backlog: Option<u32>,
    pub sni: Vec<SniConfig>,
    pub default_key: Option<String>,
    pub default_cert: Option<String>,
    pub alpn: Option<OneOrMany<String>>,
}

impl Default for NetworkSettings {
    /// No bindings, one empty address, nothing else.
    fn default() -> (res: Self)
        ensures
            res.binding@.len() == 0,
            res.address matches OneOrMany::One(a) && a@.len() == 0,
            res.backlog is None,
            res.sni@.len() == 0,
            res.default_key is None,
            res.default_cert is None,
            res.alpn is None,
    {
        NetworkSettings {
            binding: Vec::new(),
            address: OneOrMany::One(String::new()),
            backlog: None,
            sni: Vec::new(),
            default_key: None,
            default_cert: None,
            alpn: None,
        }
    }
}

/// The process environment and the runtime's shape.
pub struct EnvironmentSettings {
    pub cwd: Option<String>,
    pub multi_threaded: bool,
    pub worker_threads: Option<usize>,
    pub thread_name: Option<String>,
    pub event_interval: Option<u32>,
    pub max_io_events_per_tick: Option<usize>,
    pub global_queue_interval: Option<u32>,
    pub thread_keep_alive_ns: Option<u64>,
    pub thread_stack_size: Option<usize>,
    pub max_blocking_threads: Option<usize>,
    /// Whether an operator console runs beside the servers.
    pub console: bool,
    /// Where the console listens; standard input and output when unset.
    pub console_address: Option<String>,
    /// Whether a restart builds a new runtime instead of reusing the running
    /// one.
    pub rebuild_on_restart: bool,
}

impl Default for EnvironmentSettings {
    /// Nothing set and a single-threaded runtime.
    fn default() -> (res: Self)
        ensures
            res.cwd is None,
            !res.multi_threaded,
            res.worker_threads is None,
            res.thread_name is None,
            res.event_interval is None,
            res.max_io_events_per_tick is None,
            res.global_queue_interval is None,
            res.thread_keep_alive_ns is None,
            res.thread_stack_size is None,
            res.max_blocking_threads is None,
            !res.console,
            res.console_address is None,
            !res.rebuild_on_restart,
    {
        EnvironmentSettings {
            cwd: None,
            multi_threaded: false,
            worker_threads: None,
            thread_name: None,
            event_interval: None,
            max_io_events_per_tick: None,
            global_queue_interval: None,
            thread_keep_alive_ns: None,
            thread_stack_size: None,
            max_blocking_threads: None,
            console: false,
            console_address: None,
            rebuild_on_restart: false,
        }
    }
}

/// What is served and how files are read.
pub struct ContentSettings {
    pub handler: Option<String>,
    pub max_file_size: Option<usize>,
    pub serve_dir: String,
    pub routes_name: Option<String>,
    pub max_file_read_size: usize,
    pub file_chunk_size: usize,
}

impl Default for ContentSettings {
    /// Nothing set, an empty serve directory and zero sizes.
    fn default() -> (res: Self)
        ensures
            res.handler is None,
            res.max_file_size is None,
            res.serve_dir@.len() == 0,
            res.routes_name is None,
            res.max_file_read_size == 0,
            res.file_chunk_size == 0,
    {
        ContentSettings {
            handler: None,
            max_file_size: None,
            serve_dir: String::new(),
            routes_name: None,
            max_file_read_size: 0,
            file_chunk_size: 0,
        }
    }
}

/// All settings of the server.
pub struct Settings {
    pub network: NetworkSettings,
    pub environment: EnvironmentSettings,
    pub content: ContentSettings,
    pub logging: LogSettings,
}

impl Default for Settings {
    /// Each part at its own default.
    fn default() -> (res: Self)
        ensures
            res.network.binding@.len() == 0,
            res.network.address matches OneOrMany::One(a) && a@.len() == 0,
            res.network.backlog is None,
            res.network.sni@.len() == 0,
            res.network.default_key is None,
            res.network.default_cert is None,
            res.network.alpn is None,
            res.environment.cwd is None,
            !res.environment.multi_threaded,
            res.environment.worker_threads is None,
            res.environment.thread_name is None,
            res.environment.event_interval is None,
            res.environment.max_io_events_per_tick is None,
            res.environment.global_queue_interval is None,
            res.environment.thread_keep_alive_ns is None,
            res.environment.thread_stack_size is None,
            res.environment.max_blocking_threads is None,
            !res.environment.console,
            res.environment.console_address is None,
            !res.environment.rebuild_on_restart,
            res.content.handler is None,
            res.content.max_file_size is None,
            res.content.serve_dir@.len() == 0,
            res.content.routes_name is None,
            res.content.max_file_read_size == 0,
            res.content.file_chunk_size == 0,
            res.logging == LogSettings::spec_default(),
    {
        Settings {
            network: NetworkSettings::default(),
            environment: EnvironmentSettings::default(),
            content: ContentSettings::default(),
            logging: LogSettings::default(),
        }
    }
}

/// The logging switches. Each switch is `None` until it is decided, either by
/// the settings file or by one of the rules below.
pub struct LogSettings {
    pub loglevel: Option<i16>,
    pub loglevel_template: Option<String>,
    pub enable_unset: bool,
    pub disable_unset: bool,
    pub init_error: Option<bool>,
    pub exit: Option<bool>,
    pub client_dump: Option<bool>,
    pub ip_dump: Option<bool>,
    pub request: Option<bool>,
    pub response: Option<bool>,
    pub response_time: Option<bool>,
    pub handler_error: Option<bool>,
    pub tls_upgrade_error: Option<bool>,
    pub content_handler_error: Option<bool>,
    pub http2_error: Option<bool>,
    pub http2_frame_dump: Option<bool>,
    pub routes_error: Option<bool>,
    pub routes_warning: Option<bool>,
    pub routes_update: Option<bool>,
    pub route_dump: Option<bool>,
    pub http_error: Option<bool>,
    pub http_error_detailed: Option<bool>,
    pub file_type_info: Option<bool>,
    pub file_processing_info: Option<bool>,
}

/// `o` when it is decided, `Some(v)` when it is not.
pub open spec fn fill(o: Option<bool>, v: bool) -> Option<bool> {
    match o {
        None => Some(v),
        Some(b) => Some(b),
    }
}

/// `fill(o, true)` when `on` holds, `o` otherwise.
pub open spec fn turn_on_if(o: Option<bool>, on: bool) -> Option<bool> {
    if on { fill(o, true) } else { o }
}

/// The first decided of `a` and `b`, as `Option::or` gives it.
pub open spec fn first_decided(a: Option<bool>, b: Option<bool>) -> Option<bool> {
    match a {
        Some(x) => Some(x),
        None => b,
    }
}

/// Bit `i` (for `0 <= i < 8`) of a log level: the eight categories debug,
/// verbose, log, info, warning, error, critical error and fatal error.
pub open spec fn level_bit(level: i16, i: int) -> bool {
    if i == 0 { level & 1 != 0 }
    else if i == 1 { level & 2 != 0 }
    else if i == 2 { level & 4 != 0 }
    else if i == 3 { level & 8 != 0 }
    else if i == 4 { level & 16 != 0 }
    else if i == 5 { level & 32 != 0 }
    else if i == 6 { level & 64 != 0 }
    else if i == 7 { level & 128 != 0 }
    else { false }
}

/// Some category below `i` is set in `level`.
pub open spec fn lower_bit(level: i16, i: int) -> bool {
    exists|j: int| 0 <= j < i && #[trigger] level_bit(level, j)
}

/// Category `i` is switched on by `update_loglevel(level, cascade)`: its own bit
/// is set, or, when `cascade` holds, the bit of some quieter category is.
#[verifier::opaque]
pub open spec fn category_on(level: i16, cascade: bool, i: int) -> bool {
    level_bit(level, i) || (cascade && lower_bit(level, i))
}

/// The log level that a template name stands for: one category bit.
pub open spec fn template_level(name: Seq<char>) -> Option<i16> {
    if name == "debug"@ { Some(1i16) }
    else if name == "verbose"@ { Some(2i16) }
    else if name == "log"@ { Some(4i16) }
    else if name == "info"@ { Some(8i16) }
    else if name == "warning"@ { Some(16i16) }
    else if name == "error"@ { Some(32i16) }
    else if name == "critical-error"@ { Some(64i16) }
    else if name == "fatal-error"@ { Some(128i16) }
    else { None }
}

impl LogSettings {
    /// The twenty switches, in declaration order.
    pub open spec fn flags(self) -> Seq<Option<bool>> {
        seq![self.init_error, self.exit, self.client_dump, self.ip_dump, self.request, self.response, self.response_time, self.handler_error, self.tls_upgrade_error, self.content_handler_error, self.http2_error, self.http2_frame_dump, self.routes_error, self.routes_warning, self.routes_update, self.route_dump, self.http_error, self.http_error_detailed, self.file_type_info, self.file_processing_info]
    }

    /// Nothing decided, no level, no template.
    pub open spec fn spec_default() -> LogSettings {
        LogSettings {
            loglevel: None,
            loglevel_template: None,
            enable_unset: false,
            disable_unset: false,
            init_error: None,
            exit: None,
            client_dump: None,
            ip_dump: None,
            request: None,
            response: None,
            response_time: None,
            handler_error: None,
            tls_upgrade_error: None,
            content_handler_error: None,
            http2_error: None,
            http2_frame_dump: None,
            routes_error: None,
            routes_warning: None,
            routes_update: None,
            route_dump: None,
            http_error: None,
            http_error_detailed: None,
            file_type_info: None,
            file_processing_info: None,
        }
    }

    /// `self` with every switch set to `v`; level, template and the two
    /// `*_unset` switches kept.
    pub open spec fn with_all(self, v: Option<bool>) -> LogSettings {
        LogSettings {
            loglevel: self.loglevel,
            loglevel_template: self.loglevel_template,
            enable_unset: self.enable_unset,
            disable_unset: self.disable_unset,
            init_error: v,
            exit: v,
            client_dump: v,
            ip_dump: v,
            request: v,
            response: v,
            response_time: v,
            handler_error: v,
            tls_upgrade_error: v,
            content_handler_error: v,
            http2_error: v,
            http2_frame_dump: v,
            routes_error: v,
            routes_warning: v,
            routes_update: v,
            route_dump: v,
            http_error: v,
            http_error_detailed: v,
            file_type_info: v,
            file_processing_info: v,
        }
    }

    /// `self` with every undecided switch decided as `v`.
    pub open spec fn with_unset_filled(self, v: bool) -> LogSettings {
        LogSettings {
            init_error: fill(self.init_error, v),
            exit: fill(self.exit, v),
            client_dump: fill(self.client_dump, v),
            ip_dump: fill(self.ip_dump, v),
            request: fill(self.request, v),
            response: fill(self.response, v),
            response_time: fill(self.response_time, v),
            handler_error: fill(self.handler_error, v),
            tls_upgrade_error: fill(self.tls_upgrade_error, v),
            content_handler_error: fill(self.content_handler_error, v),
            http2_error: fill(self.http2_error, v),
            http2_frame_dump: fill(self.http2_frame_dump, v),
            routes_error: fill(self.routes_error, v),
            routes_warning: fill(self.routes_warning, v),
            routes_update: fill(self.routes_update, v),
            route_dump: fill(self.route_dump, v),
            http_error: fill(self.http_error, v),
            http_error_detailed: fill(self.http_error_detailed, v),
            file_type_info: fill(self.file_type_info, v),
            file_processing_info: fill(self.file_processing_info, v),
            ..self
        }
    }

    /// `self` after `update_loglevel(level, cascade)`: every undecided switch of
    /// a category that is switched on is turned on.
    pub open spec fn with_level(self, level: i16, cascade: bool) -> LogSettings {
        LogSettings {
            init_error: turn_on_if(self.init_error, category_on(level, cascade, 7)),
            exit: turn_on_if(self.exit, category_on(level, cascade, 3)),
            client_dump: self.client_dump,
            ip_dump: turn_on_if(self.ip_dump, category_on(level, cascade, 1)),
            request: turn_on_if(self.request, category_on(level, cascade, 3)),
            response: turn_on_if(self.response, category_on(level, cascade, 3)),
            response_time: turn_on_if(self.response_time, category_on(level, cascade, 2)),
            handler_error: turn_on_if(self.handler_error, category_on(level, cascade, 6)),
            tls_upgrade_error: turn_on_if(self.tls_upgrade_error, category_on(level, cascade, 6)),
            content_handler_error: turn_on_if(self.content_handler_error, category_on(level, cascade, 6)),
            http2_error: turn_on_if(self.http2_error, category_on(level, cascade, 0)),
            http2_frame_dump: turn_on_if(self.http2_frame_dump, category_on(level, cascade, 0)),
            routes_error: turn_on_if(self.routes_error, category_on(level, cascade, 4) || category_on(level, cascade, 5)),
            routes_warning: turn_on_if(self.routes_warning, category_on(level, cascade, 4)),
            routes_update: turn_on_if(self.routes_update, category_on(level, cascade, 1)),
            route_dump: turn_on_if(self.route_dump, category_on(level, cascade, 0)),
            http_error: turn_on_if(self.http_error, category_on(level, cascade, 4) || category_on(level, cascade, 5)),
            http_error_detailed: turn_on_if(self.http_error_detailed, category_on(level, cascade, 1)),
            file_type_info: turn_on_if(self.file_type_info, category_on(level, cascade, 1)),
            file_processing_info: turn_on_if(self.file_processing_info, category_on(level, cascade, 0)),
            ..self
        }
    }

    /// `self` after `update_loglevel_template(name)`.
    pub open spec fn with_template(self, name: Seq<char>) -> LogSettings {
        match template_level(name) {
            Some(level) => self.with_level(level, true),
            None => self,
        }
    }

    /// The switches of `self` where `first` leaves them undecided: each switch
    /// is `first`'s when `first` decides it; level, template and the `*_unset`
    /// switches are `self`'s.
    pub open spec fn under(self, first: LogSettings) -> LogSettings {
        LogSettings {
            init_error: first_decided(first.init_error, self.init_error),
            exit: first_decided(first.exit, self.exit),
            client_dump: first_decided(first.client_dump, self.client_dump),
            ip_dump: first_decided(first.ip_dump, self.ip_dump),
            request: first_decided(first.request, self.request),
            response: first_decided(first.response, self.response),
            response_time: first_decided(first.response_time, self.response_time),
            handler_error: first_decided(first.handler_error, self.handler_error),
            tls_upgrade_error: first_decided(first.tls_upgrade_error, self.tls_upgrade_error),
            content_handler_error: first_decided(first.content_handler_error, self.content_handler_error),
            http2_error: first_decided(first.http2_error, self.http2_error),
            http2_frame_dump: first_decided(first.http2_frame_dump, self.http2_frame_dump),
            routes_error: first_decided(first.routes_error, self.routes_error),
            routes_warning: first_decided(first.routes_warning, self.routes_warning),
            routes_update: first_decided(first.routes_update, self.routes_update),
            route_dump: first_decided(first.route_dump, self.route_dump),
            http_error: first_decided(first.http_error, self.http_error),
            http_error_detailed: first_decided(first.http_error_detailed, self.http_error_detailed),
            file_type_info: first_decided(first.file_type_info, self.file_type_info),
            file_processing_info: first_decided(first.file_processing_info, self.file_processing_info),
            ..self
        }
    }

    /// Nothing decided, no level, no template.
    pub fn default() -> (res: Self)
        ensures
            res == LogSettings::spec_default(),
    {
        LogSettings {
            loglevel: None,
            loglevel_template: None,
            enable_unset: false,
            disable_unset: false,
            init_error: None,
            exit: None,
            client_dump: None,
            ip_dump: None,
            request: None,
            response: None,
            response_time: None,
            handler_error: None,
            tls_upgrade_error: None,
            content_handler_error: None,
            http2_error: None,
            http2_frame_dump: None,
            routes_error: None,
            routes_warning: None,
            routes_update: None,
            route_dump: None,
            http_error: None,
            http_error_detailed: None,
            file_type_info: None,
            file_processing_info: None,
        }
    }

    /// Decides every switch as off.
    pub fn _disable_all(&mut self)
        ensures
            *final(self) == old(self).with_all(Some(false)),
    {
        let template = self.loglevel_template.clone();
        *self = LogSettings {
            loglevel: self.loglevel,
            loglevel_template: template,
            enable_unset: self.enable_unset,
            disable_unset: self.disable_unset,
            init_error: Some(false),
            exit: Some(false),
            client_dump: Some(false),
            ip_dump: Some(false),
            request: Some(false),
            response: Some(false),
            response_time: Some(false),
            handler_error: Some(false),
            tls_upgrade_error: Some(false),
            content_handler_error: Some(false),
            http2_error: Some(false),
            http2_frame_dump: Some(false),
            routes_error: Some(false),
            routes_warning: Some(false),
            routes_update: Some(false),
            route_dump: Some(false),
            http_error: Some(false),
            http_error_detailed: Some(false),
            file_type_info: Some(false),
            file_processing_info: Some(false),
        };
    }

    /// Decides every switch as on.
    pub fn _enable_all(&mut self)
        ensures
            *final(self) == old(self).with_all(Some(true)),
    {
        let template = self.loglevel_template.clone();
        *self = LogSettings {
            loglevel: self.loglevel,
            loglevel_template: template,
            enable_unset: self.enable_unset,
            disable_unset: self.disable_unset,
            init_error: Some(true),
            exit: Some(true),
            client_dump: Some(true),
            ip_dump: Some(true),
            request: Some(true),
            response: Some(true),
            response_time: Some(true),
            handler_error: Some(true),
            tls_upgrade_error: Some(true),
            content_handler_error: Some(true),
            http2_error: Some(true),
            http2_frame_dump: Some(true),
            routes_error: Some(true),
            routes_warning: Some(true),
            routes_update: Some(true),
            route_dump: Some(true),
            http_error: Some(true),
            http_error_detailed: Some(true),
            file_type_info: Some(true),
            file_processing_info: Some(true),
        };
    }

    /// Leaves every switch undecided again.
    pub fn _unset_all(&mut self)
        ensures
            *final(self) == old(self).with_all(None),
    {
        let template = self.loglevel_template.clone();
        let d = Self::default();
        *self = LogSettings {
            loglevel: self.loglevel,
            loglevel_template: template,
            enable_unset: self.enable_unset,
            disable_unset: self.disable_unset,
            ..d
        };
    }

    /// Decides every undecided switch as off; decided ones are kept.
    pub fn disable_unset(&mut self)
        ensures
            *final(self) == old(self).with_unset_filled(false),
    {
        swap_if_none(&mut self.init_error, false);
        swap_if_none(&mut self.exit, false);
        swap_if_none(&mut self.client_dump, false);
        swap_if_none(&mut self.ip_dump, false);
        swap_if_none(&mut self.request, false);
        swap_if_none(&mut self.response, false);
        swap_if_none(&mut self.response_time, false);
        swap_if_none(&mut self.handler_error, false);
        swap_if_none(&mut self.tls_upgrade_error, false);
        swap_if_none(&mut self.content_handler_error, false);
        swap_if_none(&mut self.http2_error, false);
        swap_if_none(&mut self.http2_frame_dump, false);
        swap_if_none(&mut self.routes_error, false);
        swap_if_none(&mut self.routes_warning, false);
        swap_if_none(&mut self.routes_update, false);
        swap_if_none(&mut self.route_dump, false);
        swap_if_none(&mut self.http_error, false);
        swap_if_none(&mut self.http_error_detailed, false);
        swap_if_none(&mut self.file_type_info, false);
        swap_if_none(&mut self.file_processing_info, false);
    }

    /// Decides every undecided switch as on; decided ones are kept.
    pub fn enable_unset(&mut self)
        ensures
            *final(self) == old(self).with_unset_filled(true),
    {
        swap_if_none(&mut self.init_error, true);
        swap_if_none(&mut self.exit, true);
        swap_if_none(&mut self.client_dump, true);
        swap_if_none(&mut self.ip_dump, true);
        swap_if_none(&mut self.request, true);
        swap_if_none(&mut self.response, true);
        swap_if_none(&mut self.response_time, true);
        swap_if_none(&mut self.handler_error, true);
        swap_if_none(&mut self.tls_upgrade_error, true);
        swap_if_none(&mut self.content_handler_error, true);
        swap_if_none(&mut self.http2_error, true);
        swap_if_none(&mut self.http2_frame_dump, true);
        swap_if_none(&mut self.routes_error, true);
        swap_if_none(&mut self.routes_warning, true);
        swap_if_none(&mut self.routes_update, true);
        swap_if_none(&mut self.route_dump, true);
        swap_if_none(&mut self.http_error, true);
        swap_if_none(&mut self.http_error_detailed, true);
        swap_if_none(&mut self.file_type_info, true);
        swap_if_none(&mut self.file_processing_info, true);
    }

    /// Turns on the undecided switches of the categories that `level` selects.
    /// Bit `i` of `level` selects category `i` (debug = 1, verbose = 2, log = 4,
    /// info = 8, warning = 16, error = 32, critical error = 64, fatal error = 128);
    /// with `restv` every category above a selected one is selected too.
    pub fn update_loglevel(&mut self, level: i16, restv: bool)
        ensures
            *final(self) == old(self).with_level(level, restv),
    {
        let c0 = level & 1 != 0;
        let c1 = level & 2 != 0 || (restv && level & 1 != 0);
        let c2 = level & 4 != 0 || (restv && level & 3 != 0);
        let c3 = level & 8 != 0 || (restv && level & 7 != 0);
        let c4 = level & 16 != 0 || (restv && level & 15 != 0);
        let c5 = level & 32 != 0 || (restv && level & 31 != 0);
        let c6 = level & 64 != 0 || (restv && level & 63 != 0);
        let c7 = level & 128 != 0 || (restv && level & 127 != 0);
        proof {
            lemma_categories(level, restv);
        }
        // debug
        turn_on(&mut self.http2_error, c0);
        turn_on(&mut self.http2_frame_dump, c0);
        turn_on(&mut self.route_dump, c0);
        turn_on(&mut self.file_processing_info, c0);
        // verbose
        turn_on(&mut self.ip_dump, c1);
        turn_on(&mut self.routes_update, c1);
        turn_on(&mut self.file_type_info, c1);
        turn_on(&mut self.http_error_detailed, c1);
        // log
        turn_on(&mut self.response_time, c2);
        // info
        turn_on(&mut self.exit, c3);
        turn_on(&mut self.request, c3);
        turn_on(&mut self.response, c3);
        // warning
        turn_on(&mut self.routes_warning, c4);
        turn_on(&mut self.routes_error, c4);
        turn_on(&mut self.http_error, c4);
        // error
        turn_on(&mut self.routes_error, c5);
        turn_on(&mut self.http_error, c5);
        // critical error
        turn_on(&mut self.handler_error, c6);
        turn_on(&mut self.content_handler_error, c6);
        turn_on(&mut self.tls_upgrade_error, c6);
        // fatal error
        turn_on(&mut self.init_error, c7);
    }

    /// Applies a named level template: the template's category and every
    /// louder one are turned on. Unknown names change nothing.
    pub fn update_loglevel_template(&mut self, level: &str)
        ensures
            *final(self) == old(self).with_template(level@),
    {
        if str_is(level, "debug") {
            self.update_loglevel(1, true)
        } else if str_is(level, "verbose") {
            self.update_loglevel(2, true)
        } else if str_is(level, "log") {
            self.update_loglevel(4, true)
        } else if str_is(level, "info") {
            self.update_loglevel(8, true)
        } else if str_is(level, "warning") {
            self.update_loglevel(16, true)
        } else if str_is(level, "error") {
            self.update_loglevel(32, true)
        } else if str_is(level, "critical-error") {
            self.update_loglevel(64, true)
        } else if str_is(level, "fatal-error") {
            self.update_loglevel(128, true)
        }
    }
}

/// Decides `o` as `x` when it is undecided. Returns whether it was undecided.
fn swap_if_none<T>(o: &mut Option<T>, x: T) -> (res: bool)
    ensures
        res == (*old(o) is None),
        *final(o) == (match *old(o) {
            None => Some(x),
            Some(v) => Some(v),
        }),
{
    if o.is_none() {
        *o = Some(x);
        true
    } else {
        false
    }
}

/// The first decided of `a` and `b` (`Option::or`).
fn or_decided(a: Option<bool>, b: Option<bool>) -> (res: Option<bool>)
    ensures
        res == first_decided(a, b),
{
    match a {
        Some(x) => Some(x),
        None => b,
    }
}

/// Decides `o` as on when `on` holds and `o` is undecided.
fn turn_on(o: &mut Option<bool>, on: bool)
    ensures
        *final(o) == turn_on_if(*old(o), on),
{
    if on {
        swap_if_none(o, true);
    }
}

/// Which categories below `i` are set, written with masks.
proof fn lemma_lower_bits(level: i16)
    ensures
        lower_bit(level, 1) == (level & 1 != 0),
        lower_bit(level, 2) == (level & 3 != 0),
        lower_bit(level, 3) == (level & 7 != 0),
        lower_bit(level, 4) == (level & 15 != 0),
        lower_bit(level, 5) == (level & 31 != 0),
        lower_bit(level, 6) == (level & 63 != 0),
        lower_bit(level, 7) == (level & 127 != 0),
        lower_bit(level, 8) == (level & 255 != 0),
{
    assert(
        (level & 3 != 0) == (level & 1 != 0 || level & 2 != 0)
        && (level & 7 != 0) == (level & 3 != 0 || level & 4 != 0)
        && (level & 15 != 0) == (level & 7 != 0 || level & 8 != 0)
        && (level & 31 != 0) == (level & 15 != 0 || level & 16 != 0)
        && (level & 63 != 0) == (level & 31 != 0 || level & 32 != 0)
        && (level & 127 != 0) == (level & 63 != 0 || level & 64 != 0)
        && (level & 255 != 0) == (level & 127 != 0 || level & 128 != 0)
    ) by (bit_vector);
    assert forall|i: int| 1 <= i <= 8 implies #[trigger] lower_bit(level, i) == (lower_bit(level, i - 1) || level_bit(level, i - 1)) by {
        if lower_bit(level, i) {
            let j = choose|j: int| 0 <= j < i && level_bit(level, j);
            if j < i - 1 {
                assert(lower_bit(level, i - 1));
            }
        }
        if lower_bit(level, i - 1) {
            let j = choose|j: int| 0 <= j < i - 1 && level_bit(level, j);
            assert(0 <= j < i && level_bit(level, j));
        }
        if level_bit(level, i - 1) {
            assert(0 <= i - 1 < i && level_bit(level, i - 1));
        }
    }
    assert(!lower_bit(level, 0));
    assert(lower_bit(level, 1) == (lower_bit(level, 0) || level_bit(level, 0)));
    assert(lower_bit(level, 2) == (lower_bit(level, 1) || level_bit(level, 1)));
    assert(lower_bit(level, 3) == (lower_bit(level, 2) || level_bit(level, 2)));
    assert(lower_bit(level, 4) == (lower_bit(level, 3) || level_bit(level, 3)));
    assert(lower_bit(level, 5) == (lower_bit(level, 4) || level_bit(level, 4)));
    assert(lower_bit(level, 6) == (lower_bit(level, 5) || level_bit(level, 5)));
    assert(lower_bit(level, 7) == (lower_bit(level, 6) || level_bit(level, 6)));
    assert(lower_bit(level, 8) == (lower_bit(level, 7) || level_bit(level, 7)));
}

/// Each category's switch written with masks.
proof fn lemma_categories(level: i16, cascade: bool)
    ensures
        category_on(level, cascade, 0) == (level & 1 != 0),
        category_on(level, cascade, 1) == (level & 2 != 0 || (cascade && level & 1 != 0)),
        category_on(level, cascade, 2) == (level & 4 != 0 || (cascade && level & 3 != 0)),
        category_on(level, cascade, 3) == (level & 8 != 0 || (cascade && level & 7 != 0)),
        category_on(level, cascade, 4) == (level & 16 != 0 || (cascade && level & 15 != 0)),
        category_on(level, cascade, 5) == (level & 32 != 0 || (cascade && level & 31 != 0)),
        category_on(level, cascade, 6) == (level & 64 != 0 || (cascade && level & 63 != 0)),
        category_on(level, cascade, 7) == (level & 128 != 0 || (cascade && level & 127 != 0)),
{
    reveal(category_on);
    lemma_lower_bits(level);
    assert(!lower_bit(level, 0));
}

impl Settings {
    /// Every part other than the logging is at its default.
    pub open spec fn rest_is_default(self) -> bool {
        &&& self.network.binding@.len() == 0
        &&& self.network.address matches OneOrMany::One(a) && a@.len() == 0
        &&& self.network.backlog is None
        &&& self.network.sni@.len() == 0
        &&& self.network.default_key is None
        &&& self.network.default_cert is None
        &&& self.network.alpn is None
        &&& self.environment.cwd is None
        &&& !self.environment.multi_threaded
        &&& self.environment.worker_threads is None
        &&& self.environment.thread_name is None
        &&& self.environment.event_interval is None
        &&& self.environment.max_io_events_per_tick is None
        &&& self.environment.global_queue_interval is None
        &&& self.environment.thread_keep_alive_ns is None
        &&& self.environment.thread_stack_size is None
        &&& self.environment.max_blocking_threads is None
        &&& !self.environment.console
        &&& self.environment.console_address is None
        &&& !self.environment.rebuild_on_restart
        &&& self.content.handler is None
        &&& self.content.max_file_size is None
        &&& self.content.serve_dir@.len() == 0
        &&& self.content.routes_name is None
        &&& self.content.max_file_read_size == 0
        &&& self.content.file_chunk_size == 0
    }
}

impl LogSettings {
    /// The switches after the rules that the settings file itself asks for, in
    /// the order they are applied: `enable_unset`, `disable_unset`, the numeric
    /// level (without cascade), then the level template.
    pub open spec fn decided(self) -> LogSettings {
        let a = if self.enable_unset { self.with_unset_filled(true) } else { self };
        let b = if a.disable_unset { a.with_unset_filled(false) } else { a };
        let c = match b.loglevel {
            Some(level) => b.with_level(level, false),
            None => b,
        };
        match c.loglevel_template {
            Some(t) => c.with_template(t@),
            None => c,
        }
    }
}

impl LogSettings {
    /// Applies the rules that the settings file itself asks for, in order:
    /// `enable_unset`, `disable_unset`, the numeric level, the level template.
    pub fn apply_file_rules(&mut self)
        ensures
            *final(self) == old(self).decided(),
    {
        if self.enable_unset {
            self.enable_unset();
        }
        if self.disable_unset {
            self.disable_unset();
        }
        if let Some(level) = self.loglevel {
            self.update_loglevel(level, false);
        }
        if let Some(level) = self.loglevel_template.clone() {
            self.update_loglevel_template(level.as_str());
        }
    }

    /// These switches where `first` leaves them undecided; `first`'s where it
    /// decides them.
    pub fn merged_under(&self, first: &LogSettings) -> (res: LogSettings)
        ensures
            res == self.under(*first),
    {
        LogSettings {
            loglevel: self.loglevel,
            loglevel_template: self.loglevel_template.clone(),
            enable_unset: self.enable_unset,
            disable_unset: self.disable_unset,
            init_error: or_decided(first.init_error, self.init_error),
            exit: or_decided(first.exit, self.exit),
            client_dump: or_decided(first.client_dump, self.client_dump),
            ip_dump: or_decided(first.ip_dump, self.ip_dump),
            request: or_decided(first.request, self.request),
            response: or_decided(first.response, self.response),
            response_time: or_decided(first.response_time, self.response_time),
            handler_error: or_decided(first.handler_error, self.handler_error),
            tls_upgrade_error: or_decided(first.tls_upgrade_error, self.tls_upgrade_error),
            content_handler_error: or_decided(first.content_handler_error, self.content_handler_error),
            http2_error: or_decided(first.http2_error, self.http2_error),
            http2_frame_dump: or_decided(first.http2_frame_dump, self.http2_frame_dump),
            routes_error: or_decided(first.routes_error, self.routes_error),
            routes_warning: or_decided(first.routes_warning, self.routes_warning),
            routes_update: or_decided(first.routes_update, self.routes_update),
            route_dump: or_decided(first.route_dump, self.route_dump),
            http_error: or_decided(first.http_error, self.http_error),
            http_error_detailed: or_decided(first.http_error_detailed, self.http_error_detailed),
            file_type_info: or_decided(first.file_type_info, self.file_type_info),
            file_processing_info: or_decided(first.file_processing_info, self.file_processing_info),
        }
    }
}

/// The settings the server runs with: the loaded settings (their defaults when
/// none could be loaded) with the file's logging rules applied, and every
/// switch that was decided before the file was read (`initial`) kept as it was.
pub fn finalize_settings(loaded: Option<Settings>, initial: &LogSettings) -> (res: Settings)
    ensures
        match loaded {
            Some(s) => {
                &&& res.network == s.network
                &&& res.environment == s.environment
                &&& res.content == s.content
                &&& res.logging == s.logging.decided().under(*initial)
            },
            None => {
                &&& res.rest_is_default()
                &&& res.logging == LogSettings::spec_default().under(*initial)
            },
        },
{
    let mut settings = match loaded {
        Some(s) => s,
        None => Settings::default(),
    };
    settings.logging.apply_file_rules();
    let merged = settings.logging.merged_under(initial);
    settings.logging = merged;
    settings
}

// ---------------------------------------------------------------------------
// Laws of the logging switches
// ---------------------------------------------------------------------------

/// Deciding the undecided switches decides all of them and keeps the ones that
/// were already decided.
pub proof fn lemma_fill_decides_every_switch(s: LogSettings, v: bool)
    ensures
        forall|i: int| 0 <= i < 20 ==> (#[trigger] s.with_unset_filled(v).flags()[i]) is Some,
        forall|i: int| 0 <= i < 20 && (#[trigger] s.flags()[i]) is Some ==>
            s.with_unset_filled(v).flags()[i] == s.flags()[i],
        forall|i: int| 0 <= i < 20 && (#[trigger] s.flags()[i]) is None ==>
            s.with_unset_filled(v).flags()[i] == Some(v),
{
}

/// Once `enable_unset` or `disable_unset` has run, running either of them again
/// changes nothing.
pub proof fn lemma_fill_settles(s: LogSettings, v: bool, w: bool)
    ensures
        s.with_unset_filled(v).with_unset_filled(w) == s.with_unset_filled(v),
{
}

/// A log level never overrides a decided switch and only ever turns switches
/// on.
pub proof fn lemma_level_keeps_decided(s: LogSettings, level: i16, cascade: bool)
    ensures
        forall|i: int| 0 <= i < 20 && (#[trigger] s.flags()[i]) is Some ==>
            s.with_level(level, cascade).flags()[i] == s.flags()[i],
        forall|i: int| 0 <= i < 20 && (#[trigger] s.flags()[i]) is None ==>
            s.with_level(level, cascade).flags()[i] is None
            || s.with_level(level, cascade).flags()[i] == Some(true),
{
}

/// Applying the same log level twice is the same as applying it once.
pub proof fn lemma_level_idempotent(s: LogSettings, level: i16, cascade: bool)
    ensures
        s.with_level(level, cascade).with_level(level, cascade) == s.with_level(level, cascade),
{
}

/// The log level with only category `i` set.
pub open spec fn single_category(i: int) -> i16 {
    if i == 0 { 1 }
    else if i == 1 { 2 }
    else if i == 2 { 4 }
    else if i == 3 { 8 }
    else if i == 4 { 16 }
    else if i == 5 { 32 }
    else if i == 6 { 64 }
    else { 128 }
}

/// With only category `i` set, a cascading level switches on category `i` and
/// every louder category and nothing quieter; without cascade it switches on
/// category `i` alone. The templates are such levels with cascade.
pub proof fn lemma_level_cascade(i: int, j: int)
    requires
        0 <= i < 8,
        0 <= j < 8,
    ensures
        category_on(single_category(i), true, j) == (i <= j),
        category_on(single_category(i), false, j) == (i == j),
{
    reveal(category_on);
    let lv = single_category(i);
    lemma_single_bits(lv);
    assert forall|k: int| 0 <= k < 8 implies #[trigger] level_bit(lv, k) == (k == i) by {}
    if lower_bit(lv, j) {
        let k = choose|k: int| 0 <= k < j && #[trigger] level_bit(lv, k);
        assert(k == i);
    }
    if i < j {
        assert(level_bit(lv, i));
    }
}

/// The bits of a level with a single category set.
proof fn lemma_single_bits(x: i16)
    requires
        x == 1 || x == 2 || x == 4 || x == 8 || x == 16 || x == 32 || x == 64 || x == 128,
    ensures
        (x & 1 != 0) == (x == 1),
        (x & 2 != 0) == (x == 2),
        (x & 4 != 0) == (x == 4),
        (x & 8 != 0) == (x == 8),
        (x & 16 != 0) == (x == 16),
        (x & 32 != 0) == (x == 32),
        (x & 64 != 0) == (x == 64),
        (x & 128 != 0) == (x == 128),
{
    assert((x == 1 || x == 2 || x == 4 || x == 8 || x == 16 || x == 32 || x == 64 || x == 128) ==> (
        (x & 1 != 0) == (x == 1) && (x & 2 != 0) == (x == 2) && (x & 4 != 0) == (x == 4)
        && (x & 8 != 0) == (x == 8) && (x & 16 != 0) == (x == 16) && (x & 32 != 0) == (x == 32)
        && (x & 64 != 0) == (x == 64) && (x & 128 != 0) == (x == 128))) by (bit_vector);
}

/// A template is the cascading level of its category; an unknown template
/// changes nothing.
pub proof fn lemma_template_is_cascading_level(s: LogSettings, name: Seq<char>)
    ensures
        template_level(name) is None ==> s.with_template(name) == s,
        template_level(name) matches Some(lv) ==> s.with_template(name) == s.with_level(lv, true)
            && exists|i: int| 0 <= i < 8 && lv == single_category(i),
{
    if let Some(lv) = template_level(name) {
        if lv == 1 { assert(lv == single_category(0)); }
        else if lv == 2 { assert(lv == single_category(1)); }
        else if lv == 4 { assert(lv == single_category(2)); }
        else if lv == 8 { assert(lv == single_category(3)); }
        else if lv == 16 { assert(lv == single_category(4)); }
        else if lv == 32 { assert(lv == single_category(5)); }
        else if lv == 64 { assert(lv == single_category(6)); }
        else { assert(lv == single_category(7)); }
    }
}

/// A switch decided before the settings file is read keeps its value whatever
/// the file says; an undecided one takes the file's value.
pub proof fn lemma_initial_switches_win(file: LogSettings, initial: LogSettings)
    ensures
        forall|i: int| 0 <= i < 20 ==> (#[trigger] file.under(initial).flags()[i]) == (
            match initial.flags()[i] {
                Some(b) => Some(b),
                None => file.flags()[i],
            }),
{
}

/// Responses belong to the info category with the end of the process and the
/// requests: a log level moves the three switches together, and a level with
/// the info bit (8) turns all three on where they are undecided.
pub proof fn lemma_info_category(s: LogSettings, level: i16, cascade: bool)
    ensures
        s.response == s.request ==> s.with_level(level, cascade).response == s.with_level(level, cascade).request,
        s.response == s.exit ==> s.with_level(level, cascade).response == s.with_level(level, cascade).exit,
        level & 8 != 0 ==> {
            &&& s.with_level(level, cascade).response == fill(s.response, true)
            &&& s.with_level(level, cascade).request == fill(s.request, true)
            &&& s.with_level(level, cascade).exit == fill(s.exit, true)
        },
{
    reveal(category_on);
}

/// The `info` template turns responses, requests and the end of the process on
/// where they are undecided.
pub proof fn lemma_info_template_logs_responses(s: LogSettings)
    ensures
        s.with_template("info"@).response == fill(s.response, true),
        s.with_template("info"@).request == fill(s.request, true),
        s.with_template("info"@).exit == fill(s.exit, true),
{
    assert(8i16 & 8 != 0) by (bit_vector);
    reveal_strlit("info");
    reveal_strlit("debug");
    reveal_strlit("verbose");
    reveal_strlit("log");
    assert("info"@.len() == 4);
    assert("info"@ != "debug"@);
    assert("info"@ != "verbose"@);
    assert("info"@ != "log"@);
    assert(template_level("info"@) == Some(8i16));
    lemma_info_category(s, 8, true);
}

} // verus!
