//! The host's configuration: measurement switches and counts read from
//! environment values, the command-line arguments, and the kind of module file.

use vstd::prelude::*;
use crate::text::{decimal_value, parse_u16, parse_u64, text_is};

verus! {

/// Whether a switch value turns the switch on: exactly `1`, `true`, `TRUE`, `yes`
/// or `YES`.
pub open spec fn is_on_text(t: Seq<char>) -> bool {
    ||| t == seq!['1']
    ||| t == seq!['t', 'r', 'u', 'e']
    ||| t == seq!['T', 'R', 'U', 'E']
    ||| t == seq!['y', 'e', 's']
    ||| t == seq!['Y', 'E', 'S']
}

/// Whether an optional switch value turns the switch on; an absent value does not.
pub open spec fn switch_of(value: Option<Seq<char>>) -> bool {
    match value {
        Some(t) => is_on_text(t),
        None => false,
    }
}

/// The count that an optional value gives: its unsigned decimal number, or
/// `default` when it is absent or not such a number.
pub open spec fn count_of(value: Option<Seq<char>>, default: u64) -> u64 {
    match value {
        Some(t) => match decimal_value(t, u64::MAX as nat) {
            Some(v) => v as u64,
            None => default,
        },
        None => default,
    }
}

/// The text of an optional string.
pub open spec fn text_of(value: Option<&str>) -> Option<Seq<char>> {
    match value {
        Some(s) => Some(s@),
        None => None,
    }
}

/// Whether an optional switch value turns the switch on.
pub fn switch_on(value: Option<&str>) -> (on: bool)
    ensures
        on == switch_of(text_of(value)),
{
    match value {
        None => false,
        Some(s) => {
            let r = text_is(s, &['1']) || text_is(s, &['t', 'r', 'u', 'e']) || text_is(
                s,
                &['T', 'R', 'U', 'E'],
            ) || text_is(s, &['y', 'e', 's']) || text_is(s, &['Y', 'E', 'S']);
            proof {
                assert(['1']@ =~= seq!['1']);
                assert(['t', 'r', 'u', 'e']@ =~= seq!['t', 'r', 'u', 'e']);
                assert(['T', 'R', 'U', 'E']@ =~= seq!['T', 'R', 'U', 'E']);
                assert(['y', 'e', 's']@ =~= seq!['y', 'e', 's']);
                assert(['Y', 'E', 'S']@ =~= seq!['Y', 'E', 'S']);
            }
            r
        },
    }
}

/// The count that an optional value gives, or `default`.
pub fn count_or(value: Option<&str>, default: u64) -> (n: u64)
    ensures
        n == count_of(text_of(value), default),
{
    match value {
        None => default,
        Some(s) => match parse_u64(s) {
            Some(v) => v,
            None => default,
        },
    }
}

/// What the host measures and reports.
pub struct MeasureSettings {
    startup: bool,
    per_request: bool,
    every: u64,
    warmup: u64,
}

/// Whether request number `n` (counting from 1) is reported, after `warmup`
/// unreported requests, one in every `every`.
pub open spec fn is_sampled(warmup: u64, every: u64, n: u64) -> bool {
    n > warmup && (n - warmup) % (every as int) == 0
}

/// How many of the requests numbered `warmup + 1` to `warmup + m` are reported.
pub open spec fn sampled_count(warmup: u64, every: u64, m: nat) -> nat
    decreases m,
{
    if m == 0 {
        0
    } else {
        sampled_count(warmup, every, (m - 1) as nat) + if is_sampled(
            warmup,
            every,
            (warmup + m) as u64,
        ) {
            1nat
        } else {
            0nat
        }
    }
}

impl MeasureSettings {
    #[verifier::type_invariant]
    spec fn inv(self) -> bool {
        self.every >= 1
    }

    /// Whether the startup timings are reported.
    pub closed spec fn reports_startup(self) -> bool {
        self.startup
    }

    /// Whether timings of requests are reported.
    pub closed spec fn reports_requests(self) -> bool {
        self.per_request
    }

    /// One request in this many is reported.
    pub closed spec fn sample_every(self) -> u64 {
        self.every
    }

    /// The number of requests that go unreported first.
    pub closed spec fn sample_warmup(self) -> u64 {
        self.warmup
    }

    /// Settings from the values of the four measurement variables (the startup
    /// switch, the per-request switch, the sampling interval and the warm-up count),
    /// each absent where the variable is unset.
    pub fn new(
        startup: Option<&str>,
        per_request: Option<&str>,
        every: Option<&str>,
        warmup: Option<&str>,
    ) -> (m: MeasureSettings)
        ensures
            m.reports_startup() == switch_of(text_of(startup)),
            m.reports_requests() == switch_of(text_of(per_request)),
            m.sample_every() >= 1,
            m.sample_every() == if count_of(text_of(every), 1) >= 1 {
                count_of(text_of(every), 1)
            } else {
                1
            },
            m.sample_warmup() == count_of(text_of(warmup), 0),
    {
        let n = count_or(every, 1);
        MeasureSettings {
            startup: switch_on(startup),
            per_request: switch_on(per_request),
            every: if n >= 1 {
                n
            } else {
                1
            },
            warmup: count_or(warmup, 0),
        }
    }

    /// Whether the startup timings are reported.
    pub fn startup_enabled(&self) -> (r: bool)
        ensures
            r == self.reports_startup(),
    {
        self.startup
    }

    /// Whether timings of requests are reported.
    pub fn per_request_enabled(&self) -> (r: bool)
        ensures
            r == self.reports_requests(),
    {
        self.per_request
    }

    /// Whether the request numbered `n` (counting from 1) is reported.
    pub fn samples(&self, n: u64) -> (r: bool)
        ensures
            self.sample_every() >= 1,
            r == is_sampled(self.sample_warmup(), self.sample_every(), n),
    {
        proof {
            use_type_invariant(self);
        }
        if n <= self.warmup {
            return false;
        }
        (n - self.warmup) % self.every == 0
    }
}

/// After the warm-up, exactly one request in every `every` is reported: of the
/// requests numbered `warmup + 1` to `warmup + m`, `m / every` are.
pub proof fn lemma_sampled_count(warmup: u64, every: u64, m: nat)
    requires
        every >= 1,
        warmup + m <= u64::MAX,
    ensures
        sampled_count(warmup, every, m) == m / (every as nat),
    decreases m,
{
    if m > 0 {
        lemma_sampled_count(warmup, every, (m - 1) as nat);
        let e = every as int;
        let q = (m - 1) as int / e;
        let r = (m - 1) as int % e;
        vstd::arithmetic::div_mod::lemma_fundamental_div_mod((m - 1) as int, e);
        assert((m - 1) as int == q * e + r) by {
            vstd::arithmetic::mul::lemma_mul_is_commutative(q, e);
        }
        if r + 1 < e {
            vstd::arithmetic::div_mod::lemma_fundamental_div_mod_converse(m as int, e, q, r + 1);
        } else {
            assert(m as int == (q + 1) * e + 0) by (nonlinear_arith)
                requires
                    m as int == (m - 1) as int + 1,
                    (m - 1) as int == q * e + r,
                    r + 1 == e,
            ;
            vstd::arithmetic::div_mod::lemma_fundamental_div_mod_converse(m as int, e, q + 1, 0);
        }
    }
}

/// Requests up to the warm-up count are never reported, and the request numbered
/// `warmup + m` is reported exactly when `m` is a multiple of `every`.
pub proof fn lemma_sampling_by_position(warmup: u64, every: u64, n: u64)
    requires
        every >= 1,
    ensures
        n <= warmup ==> !is_sampled(warmup, every, n),
        n > warmup ==> (is_sampled(warmup, every, n) <==> ((n - warmup) as int) % (every as int)
            == 0),
{
}

/// The port the host listens on when none is given.
pub const DEFAULT_PORT: u16 = 8080;

/// The command line of the host: the module to load and the port to listen on.
pub struct HostArgs {
    pub wasm_path: String,
    pub port: u16,
}

/// The port that an optional port argument gives: its unsigned 16-bit decimal
/// number, or the default port when it is absent or not such a number.
pub open spec fn port_of(arg: Option<Seq<char>>) -> u16 {
    match arg {
        Some(t) => match decimal_value(t, u16::MAX as nat) {
            Some(v) => v as u16,
            None => DEFAULT_PORT,
        },
        None => DEFAULT_PORT,
    }
}

impl HostArgs {
    /// The host's settings from its first and second command-line arguments: the
    /// module path (`guest.cwasm` when absent) and the port.
    pub fn from_args(path: Option<String>, port: Option<&str>) -> (a: HostArgs)
        ensures
            a.wasm_path@ == (match path {
                Some(p) => p@,
                None => "guest.cwasm"@,
            }),
            a.port == port_of(text_of(port)),
    {
        let wasm_path = match path {
            Some(p) => p,
            None => "guest.cwasm".to_owned(),
        };
        let port = match port {
            None => DEFAULT_PORT,
            Some(s) => match parse_u16(s) {
                Some(v) => v,
                None => DEFAULT_PORT,
            },
        };
        HostArgs { wasm_path, port }
    }
}

/// The two kinds of module file that the host loads.
#[derive(PartialEq, Eq, Structural, Clone, Copy, Debug)]
pub enum ModuleFormat {
    /// A WebAssembly binary, compiled when it is loaded (`.wasm`).
    Wasm,
    /// A module compiled ahead of time (`.cwasm`).
    Cwasm,
}

/// The kind of module that a file extension names, if any.
pub open spec fn format_of(ext: Seq<char>) -> Option<ModuleFormat> {
    if ext == seq!['w', 'a', 's', 'm'] {
        Some(ModuleFormat::Wasm)
    } else if ext == seq!['c', 'w', 'a', 's', 'm'] {
        Some(ModuleFormat::Cwasm)
    } else {
        None
    }
}

/// The kind of module that a file extension (without its dot) names, if any.
pub fn module_format(ext: &str) -> (f: Option<ModuleFormat>)
    ensures
        f == format_of(ext@),
{
    proof {
        assert(['w', 'a', 's', 'm']@ =~= seq!['w', 'a', 's', 'm']);
        assert(['c', 'w', 'a', 's', 'm']@ =~= seq!['c', 'w', 'a', 's', 'm']);
    }
    if text_is(ext, &['w', 'a', 's', 'm']) {
        Some(ModuleFormat::Wasm)
    } else if text_is(ext, &['c', 'w', 'a', 's', 'm']) {
        Some(ModuleFormat::Cwasm)
    } else {
        None
    }
}

} // verus!
