use vstd::prelude::*;

verus! {

/// Relies on `Duration::from_secs`, which never panics; nothing is stated of
/// the opaque result.
pub assume_specification[ core::time::Duration::from_secs ](secs: u64) -> core::time::Duration;

/// The decimal digits of `n`, most significant first.
pub open spec fn decimal(n: nat) -> Seq<char>
    decreases n,
{
    if n < 10 {
        seq![digit(n)]
    } else {
        decimal(n / 10).push(digit(n % 10))
    }
}

pub open spec fn digit(d: nat) -> char {
    if d == 0 { '0' }
    else if d == 1 { '1' }
    else if d == 2 { '2' }
    else if d == 3 { '3' }
    else if d == 4 { '4' }
    else if d == 5 { '5' }
    else if d == 6 { '6' }
    else if d == 7 { '7' }
    else if d == 8 { '8' }
    else { '9' }
}

/// The decimal digit `d`.
fn digit_text(d: u16) -> (r: String)
    requires
        d < 10,
    ensures
        r@ == seq![digit(d as nat)],
{
    let r = if d == 0 {
        proof {
            reveal_strlit("0");
        }
        String::from_str("0")
    } else if d == 1 {
        proof {
            reveal_strlit("1");
        }
        String::from_str("1")
    } else if d == 2 {
        proof {
            reveal_strlit("2");
        }
        String::from_str("2")
    } else if d == 3 {
        proof {
            reveal_strlit("3");
        }
        String::from_str("3")
    } else if d == 4 {
        proof {
            reveal_strlit("4");
        }
        String::from_str("4")
    } else if d == 5 {
        proof {
            reveal_strlit("5");
        }
        String::from_str("5")
    } else if d == 6 {
        proof {
            reveal_strlit("6");
        }
        String::from_str("6")
    } else if d == 7 {
        proof {
            reveal_strlit("7");
        }
        String::from_str("7")
    } else if d == 8 {
        proof {
            reveal_strlit("8");
        }
        String::from_str("8")
    } else {
        proof {
            reveal_strlit("9");
        }
        String::from_str("9")
    };
    assert(r@ =~= seq![digit(d as nat)]);
    r
}

/// The decimal digits of `n`.
fn u16_text(n: u16) -> (r: String)
    ensures
        r@ == decimal(n as nat),
    decreases n,
{
    if n < 10 {
        digit_text(n)
    } else {
        let d = digit_text(n % 10);
        let r = u16_text(n / 10).concat(d.as_str());
        assert(r@ =~= decimal(n as nat));
        r
    }
}

/// Settings of the job runner.
#[derive(Clone, Debug)]
pub struct JobConfig {
    pub run_interval_seconds: u64,
}

impl JobConfig {
    /// Time between two ticks of the job runner.
    pub fn run_interval(&self) -> core::time::Duration {
        core::time::Duration::from_secs(self.run_interval_seconds)
    }
}

/// Settings of user sessions.
#[derive(Clone, Debug)]
pub struct SessionConfig {
    pub ttl_seconds: u64,
    pub cleanup_enabled: bool,
    pub cleanup_interval_seconds: i64,
}

impl SessionConfig {
    /// How long a session lives.
    pub fn ttl(&self) -> core::time::Duration {
        core::time::Duration::from_secs(self.ttl_seconds)
    }
}

/// Where traces are sent.
#[derive(Clone, Debug)]
pub struct JaegerConfig {
    pub host: String,
    pub port: u16,
}

impl JaegerConfig {
    /// The agent's address, `host:port`.
    pub fn endpoint(&self) -> (r: String)
        ensures
            r@ == self.host@ + seq![':'] + decimal(self.port as nat),
    {
        proof {
            reveal_strlit(":");
        }
        let port = u16_text(self.port);
        let r = self.host.clone().concat(":").concat(port.as_str());
        assert(":"@ =~= seq![':']);
        r
    }
}

/// The targets that a tracing layer records, as `target=level` directives.
#[derive(Clone, Debug, Default)]
pub struct TracingTargets(pub Vec<String>);

/// The directives separated by commas.
pub open spec fn comma_joined(parts: Seq<Seq<char>>) -> Seq<char>
    decreases parts.len(),
{
    if parts.len() == 0 {
        Seq::empty()
    } else if parts.len() == 1 {
        parts[0]
    } else {
        comma_joined(parts.drop_last()) + seq![','] + parts.last()
    }
}

impl TracingTargets {
    /// The directives as one filter string, separated by commas.
    pub fn joined(&self) -> (r: String)
        ensures
            r@ == comma_joined(self.0@.map_values(|s: String| s@)),
    {
        proof {
            reveal_strlit(",");
        }
        assert(","@ =~= seq![',']);
        let ghost parts = self.0@.map_values(|s: String| s@);
        let mut out = String::new();
        let mut i: usize = 0;
        while i < self.0.len()
            invariant
                i <= self.0@.len(),
                parts == self.0@.map_values(|s: String| s@),
                ","@ == seq![','],
                out@ == comma_joined(parts.take(i as int)),
            decreases self.0@.len() - i,
        {
            assert(parts.take(i as int + 1).drop_last() =~= parts.take(i as int));
            assert(parts.take(i as int + 1).last() == self.0@[i as int]@);
            if i == 0 {
                assert(parts.take(0) =~= Seq::<Seq<char>>::empty());
                out = self.0[i].clone();
                assert(out@ == comma_joined(parts.take(1)));
            } else {
                out = out.concat(",").concat(self.0[i].as_str());
            }
            i = i + 1;
        }
        assert(parts.take(i as int) =~= parts);
        out
    }
}

/// Tracing targets for logging and, optionally, for Jaeger.
#[derive(Clone, Debug, Default)]
pub struct AllTracingTargets {
    pub logging: TracingTargets,
    pub jaeger: Option<TracingTargets>,
}

/// Settings of tracing.
#[derive(Clone, Debug)]
pub struct TracingConfig {
    pub targets: AllTracingTargets,
}

/// Identifier of a project at the transactional email provider.
#[derive(Clone, Debug)]
pub struct ProjectId(String);

impl View for ProjectId {
    type V = Seq<char>;

    closed spec fn view(&self) -> Seq<char> {
        self.0@
    }
}

impl ProjectId {
    pub fn new(s: String) -> (r: Self)
        ensures
            r@ == s@,
    {
        Self(s)
    }

    pub fn as_str(&self) -> (r: &str)
        ensures
            r@ == self@,
    {
        self.0.as_str()
    }
}

} // verus!
