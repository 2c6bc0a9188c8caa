use vstd::prelude::*;
use tracing_subscriber::filter::Targets;
use crate::filter::{
    directives_enable, directives_of, filter_admits, lemma_trace_directives_enable, listed_prefix,
    target_filter, trace_directives, Severity,
};
use crate::log_config::Config;

verus! {

/// Why the logging pipeline cannot be installed.
#[derive(Clone, Copy, Debug, PartialEq, Eq, Structural)]
pub enum InitError {
    /// Neither the console nor the file output is switched on.
    NoSink,
}

/// The output layers to compose, in this order: the target filter (which
/// gates every output), the console output, the daily rolling file output
/// under the given directory.
pub struct LayerPlan {
    pub filter: Option<Targets>,
    pub console: bool,
    pub file_dir: Option<String>,
}

impl LayerPlan {
    /// This plan is the one that `config` asks for.
    pub open spec fn follows(&self, config: &Config) -> bool {
        &&& self.console == config.console
        &&& match self.file_dir {
            Some(d) => config.file && d@ == config.file_dir@,
            None => !config.file,
        }
        &&& match self.filter {
            Some(t) => config.targets@.len() > 0 && directives_of(t) == trace_directives(config.targets@),
            None => config.targets@.len() == 0,
        }
    }

    /// A record of `target` at `level` passes the plan's filter.
    pub open spec fn passes(&self, target: Seq<char>, level: Severity) -> bool {
        match self.filter {
            Some(t) => directives_enable(directives_of(t), target, level),
            None => true,
        }
    }

    /// Whether a record of `target` at `level` reaches the outputs.
    pub fn admits(&self, target: &str, level: Severity) -> (r: bool)
        ensures
            r == self.passes(target@, level),
    {
        match &self.filter {
            Some(t) => filter_admits(t, target, level),
            None => true,
        }
    }
}

/// `r` is what planning the layers of `config` gives.
pub open spec fn plan_outcome(config: &Config, r: Result<LayerPlan, InitError>) -> bool {
    match r {
        Ok(p) => config.has_sink() && p.follows(config),
        Err(e) => !config.has_sink() && e == InitError::NoSink,
    }
}

/// Plans the layers that `config` asks for. Without any output sink the
/// configuration cannot be installed.
pub fn plan_layers(config: &Config) -> (r: Result<LayerPlan, InitError>)
    ensures
        plan_outcome(config, r),
{
    if !config.console && !config.file {
        return Err(InitError::NoSink);
    }
    let filter = if config.targets.len() > 0 {
        Some(target_filter(&config.targets))
    } else {
        None
    };
    let file_dir = if config.file {
        Some(config.file_dir.clone())
    } else {
        None
    };
    Ok(LayerPlan { filter, console: config.console, file_dir })
}

/// A plan that follows `config` lets a record through exactly when `config`
/// lists no target, or one of its targets is a prefix of the record's
/// target; the record's level plays no part.
pub proof fn lemma_plan_filters_by_target(config: &Config, plan: &LayerPlan, target: Seq<char>, level: Severity)
    requires
        plan.follows(config),
    ensures
        plan.passes(target, level) == (config.targets@.len() == 0 || listed_prefix(config.targets@, target)),
{
    lemma_trace_directives_enable(config.targets@, target, level);
}

/// The once-only installation guard of the process-wide logging pipeline.
pub struct Bootstrap {
    /// Whether an installation has been started.
    pub started: bool,
}

/// From `before`, a call of `begin` with `config` returned `r` and left
/// `after`: the first call plans the layers of its configuration, every
/// later one does nothing.
pub open spec fn begin_step(
    before: Bootstrap,
    config: &Config,
    r: Option<Result<LayerPlan, InitError>>,
    after: Bootstrap,
) -> bool {
    if before.started {
        r is None && after == before
    } else {
        after.started && match r {
            Some(res) => plan_outcome(config, res),
            None => false,
        }
    }
}

impl Bootstrap {
    /// A guard under which nothing has been installed yet.
    pub fn new() -> (r: Self)
        ensures
            !r.started,
    {
        Bootstrap { started: false }
    }

    /// Claims the installation for `config`: the plan to install (or the
    /// reason it cannot be) on the first call, `None` on every later call.
    pub fn begin(&mut self, config: &Config) -> (r: Option<Result<LayerPlan, InitError>>)
        ensures
            begin_step(*old(self), config, r, *final(self)),
    {
        if self.started {
            return None;
        }
        self.started = true;
        Some(plan_layers(config))
    }
}

/// Of two initialisations from a fresh guard, only the first one installs
/// anything, and what it installs is the plan of the first configuration;
/// the second leaves the guard as it was.
pub proof fn lemma_first_init_wins(
    s0: Bootstrap,
    s1: Bootstrap,
    s2: Bootstrap,
    c1: &Config,
    c2: &Config,
    r1: Option<Result<LayerPlan, InitError>>,
    r2: Option<Result<LayerPlan, InitError>>,
)
    requires
        !s0.started,
        begin_step(s0, c1, r1, s1),
        begin_step(s1, c2, r2, s2),
    ensures
        r1 matches Some(res) && plan_outcome(c1, res),
        r2 is None,
        s2 == s1,
{
}

} // verus!
