//! The request counter: a process-wide, monotonically increasing count of
//! requests seen, held in a prometheus integer counter so that an exposition
//! endpoint can scrape it. The holder is opaque to the verifier; its value is
//! named by `counter_value` and pinned down by the trusted methods: creation
//! yields zero and each recorded request adds one.

use vstd::prelude::*;

verus! {

#[verifier::external_type_specification]
#[verifier::external_body]
pub struct ExPrometheusError(prometheus::Error);

/// The process-wide request counter. Its only mutation is adding one per
/// terminated request; it is never reset or decremented. The field is a
/// `prometheus::IntCounter`, whose generic parameter Verus refuses to
/// declare, so the whole holder is opaque.
#[verifier::external_body]
pub struct RequestMetric {
    counter: prometheus::IntCounter,
}

/// The current value of the held prometheus integer counter.
pub uninterp spec fn counter_value(m: RequestMetric) -> u64;

/// One character admissible in a prometheus metric name: a letter, `_` or
/// `:`, and after the first position also a digit.
pub open spec fn metric_name_char_ok(c: char, first: bool) -> bool {
    ||| 'a' as u32 <= c as u32 && c as u32 <= 'z' as u32
    ||| 'A' as u32 <= c as u32 && c as u32 <= 'Z' as u32
    ||| c == '_'
    ||| c == ':'
    ||| !first && '0' as u32 <= c as u32 && c as u32 <= '9' as u32
}

/// A valid prometheus metric name, as prometheus's descriptor validation
/// checks it: non-empty, first character a letter, `_` or `:`, the rest also
/// digits.
pub open spec fn valid_metric_name_spec(name: Seq<char>) -> bool {
    name.len() > 0 && forall|i: int| 0 <= i < name.len() ==> metric_name_char_ok(name[i], i == 0)
}

impl View for RequestMetric {
    type V = u64;

    open spec fn view(&self) -> u64 {
        counter_value(*self)
    }
}

/// Why the gateway can fail to come up: startup is fail-fast, and its only
/// fallible steps are making and exposing the request counter.
#[derive(Debug)]
pub enum ConfigError {
    MetricRejected,
}

impl RequestMetric {
    /// Relies on prometheus::core::GenericCounter::new: a fresh counter
    /// starts at zero. For a label-free counter with no namespace the only
    /// failure sources are an invalid metric name and an empty help string,
    /// so with both in order success is owed.
    #[verifier::external_body]
    fn counter_new(name: &str, help: &str) -> (r: Result<RequestMetric, prometheus::Error>)
        ensures
            r matches Ok(m) ==> counter_value(m) == 0,
            valid_metric_name_spec(name@) && help@.len() > 0 ==> r is Ok,
    {
        match prometheus::IntCounter::new(name, help) {
            Ok(counter) => Ok(RequestMetric { counter }),
            Err(e) => Err(e),
        }
    }

    /// Relies on prometheus::core::GenericCounter::inc: one atomic fetch-add
    /// of 1 on the underlying u64, which wraps only at the excluded maximum.
    #[verifier::external_body]
    fn counter_inc(&mut self)
        requires
            counter_value(*old(self)) < u64::MAX,
        ensures
            counter_value(*final(self)) == counter_value(*old(self)) + 1,
    {
        self.counter.inc();
    }

    /// Relies on prometheus::core::GenericCounter::get: an atomic load of the
    /// current value.
    #[verifier::external_body]
    fn counter_get(&self) -> (r: u64)
        ensures
            r == counter_value(*self),
    {
        self.counter.get()
    }

    /// Relies on prometheus::Registry::register on the default registry: on
    /// success the scrape endpoint reports this counter from then on. The
    /// handed-over clone shares the one underlying atomic.
    #[verifier::external_body]
    fn counter_register_default(&self) -> (r: Result<(), prometheus::Error>) {
        prometheus::default_registry().register(Box::new(self.counter.clone()))
    }

    /// A fresh counter at zero, named for the exposition endpoint. Succeeds
    /// whenever the name is a valid metric name and the help string is
    /// non-empty; it fails exactly when the counter is refused.
    pub fn new(name: &str, help: &str) -> (r: Result<RequestMetric, ConfigError>)
        ensures
            r matches Ok(m) ==> m@ == 0,
            valid_metric_name_spec(name@) && help@.len() > 0 ==> r is Ok,
    {
        match Self::counter_new(name, help) {
            Ok(m) => Ok(m),
            Err(_) => Err(ConfigError::MetricRejected),
        }
    }

    /// Count one request.
    pub fn record_request(&mut self)
        requires
            old(self)@ < u64::MAX,
        ensures
            final(self)@ == old(self)@ + 1,
    {
        self.counter_inc();
    }

    /// Read the count so far.
    pub fn current(&self) -> (n: u64)
        ensures
            n == self@,
    {
        self.counter_get()
    }

    /// Hand the counter to the process-wide exposition registry, so that the
    /// pull-based metrics endpoint can report it. Fails fast when the
    /// registry refuses it.
    pub fn expose(&self) -> (r: Result<(), ConfigError>) {
        match self.counter_register_default() {
            Ok(()) => Ok(()),
            Err(_) => Err(ConfigError::MetricRejected),
        }
    }
}

} // verus!
