//! Choosing the upload line: the endpoint a file is sent to.
//!
//! A line is either fixed by configuration, by its name, or picked from the
//! answers to a round of probes: the fastest endpoint that answered.

use crate::error::UploadError;
use vstd::prelude::*;

verus! {

/// The endpoints a file can be sent to.
#[derive(Clone, Copy, Debug, PartialEq, Eq, Structural)]
pub enum UploadLine {
    Kodo,
    Bda2,
    Ws,
    Qn,
    Qnhk,
    Bldsa,
    Cos,
    CosInternal,
}

/// The name by which configuration refers to a line.
pub open spec fn line_name(line: UploadLine) -> Seq<char> {
    match line {
        UploadLine::Kodo => "kodo"@,
        UploadLine::Bda2 => "bda2"@,
        UploadLine::Ws => "ws"@,
        UploadLine::Qn => "qn"@,
        UploadLine::Qnhk => "qnhk"@,
        UploadLine::Bldsa => "bldsa"@,
        UploadLine::Cos => "cos"@,
        UploadLine::CosInternal => "cos-internal"@,
    }
}

/// The line that carries `name`, if any does.
pub open spec fn line_named(name: Seq<char>) -> Option<UploadLine> {
    if name == "kodo"@ {
        Some(UploadLine::Kodo)
    } else if name == "bda2"@ {
        Some(UploadLine::Bda2)
    } else if name == "ws"@ {
        Some(UploadLine::Ws)
    } else if name == "qn"@ {
        Some(UploadLine::Qn)
    } else if name == "qnhk"@ {
        Some(UploadLine::Qnhk)
    } else if name == "bldsa"@ {
        Some(UploadLine::Bldsa)
    } else if name == "cos"@ {
        Some(UploadLine::Cos)
    } else if name == "cos-internal"@ {
        Some(UploadLine::CosInternal)
    } else {
        None
    }
}

/// No two lines share a name: looking a line up by its own name finds it.
pub proof fn line_names_are_distinct(line: UploadLine)
    ensures
        line_named(line_name(line)) == Some(line),
{
    reveal_strlit("kodo");
    reveal_strlit("bda2");
    reveal_strlit("ws");
    reveal_strlit("qn");
    reveal_strlit("qnhk");
    reveal_strlit("bldsa");
    reveal_strlit("cos");
    reveal_strlit("cos-internal");
    let name = line_name(line);
    match line {
        UploadLine::Kodo => {},
        UploadLine::Bda2 => {
            assert(name.len() == 4);
            assert(name[0] != "kodo"@[0]);
        },
        UploadLine::Ws => {
            assert(name.len() == 2);
            assert(name[0] != "qn"@[0]);
        },
        UploadLine::Qn => {
            assert(name.len() == 2);
            assert(name[0] != "ws"@[0]);
        },
        UploadLine::Qnhk => {
            assert(name.len() == 4);
            assert(name[0] != "kodo"@[0]);
            assert(name[0] != "bda2"@[0]);
        },
        UploadLine::Bldsa => {
            assert(name.len() == 5);
        },
        UploadLine::Cos => {
            assert(name.len() == 3);
        },
        UploadLine::CosInternal => {
            assert(name.len() == 12);
        },
    }
}

/// Whether two texts hold the same characters.
fn same_text(a: &str, b: &str) -> (same: bool)
    ensures
        same == (a@ == b@),
{
    let left: String = a.to_owned();
    let right: String = b.to_owned();
    left == right
}

impl UploadLine {
    /// The name by which configuration refers to this line.
    pub fn name(&self) -> (name: &'static str)
        ensures
            name@ == line_name(*self),
    {
        match self {
            UploadLine::Kodo => "kodo",
            UploadLine::Bda2 => "bda2",
            UploadLine::Ws => "ws",
            UploadLine::Qn => "qn",
            UploadLine::Qnhk => "qnhk",
            UploadLine::Bldsa => "bldsa",
            UploadLine::Cos => "cos",
            UploadLine::CosInternal => "cos-internal",
        }
    }

    /// The line that configuration means by `name`; `UnknownLine` where the
    /// name is none of the known ones.
    pub fn from_name(name: &str) -> (line: Result<UploadLine, UploadError>)
        ensures
            line == match line_named(name@) {
                Some(found) => Ok::<UploadLine, UploadError>(found),
                None => Err::<UploadLine, UploadError>(UploadError::UnknownLine),
            },
    {
        if same_text(name, "kodo") {
            Ok(UploadLine::Kodo)
        } else if same_text(name, "bda2") {
            Ok(UploadLine::Bda2)
        } else if same_text(name, "ws") {
            Ok(UploadLine::Ws)
        } else if same_text(name, "qn") {
            Ok(UploadLine::Qn)
        } else if same_text(name, "qnhk") {
            Ok(UploadLine::Qnhk)
        } else if same_text(name, "bldsa") {
            Ok(UploadLine::Bldsa)
        } else if same_text(name, "cos") {
            Ok(UploadLine::Cos)
        } else if same_text(name, "cos-internal") {
            Ok(UploadLine::CosInternal)
        } else {
            Err(UploadError::UnknownLine)
        }
    }
}

/// How the line of an upload is arrived at.
#[derive(Clone, Copy, Debug, PartialEq, Eq, Structural)]
pub enum LineChoice {
    /// Configuration names the line.
    Fixed(UploadLine),
    /// Nothing is configured: the candidates are probed and the fastest one
    /// that answers is taken.
    Probe,
}

/// What configuration asks for: the named line, a round of probes where no
/// name is configured, or `UnknownLine` for a name that no line carries.
pub fn line_choice(configured: Option<&str>) -> (choice: Result<LineChoice, UploadError>)
    ensures
        choice == match configured {
            Some(name) => match line_named(name@) {
                Some(found) => Ok::<LineChoice, UploadError>(LineChoice::Fixed(found)),
                None => Err::<LineChoice, UploadError>(UploadError::UnknownLine),
            },
            None => Ok::<LineChoice, UploadError>(LineChoice::Probe),
        },
{
    match configured {
        Some(name) => match UploadLine::from_name(name) {
            Ok(found) => Ok(LineChoice::Fixed(found)),
            Err(_) => Err(UploadError::UnknownLine),
        },
        None => Ok(LineChoice::Probe),
    }
}

/// The answer of one endpoint to a probe.
#[derive(Clone, Copy, Debug, PartialEq, Eq)]
pub struct ProbeReport {
    /// The line that was probed.
    pub line: UploadLine,
    /// Milliseconds until the endpoint answered; `None` where it did not
    /// answer or answered with a failure.
    pub latency_ms: Option<u128>,
}

/// Whether the `i`-th probe was answered.
pub open spec fn answered(reports: Seq<ProbeReport>, i: int) -> bool {
    0 <= i < reports.len() && reports[i].latency_ms is Some
}

/// Whether the `i`-th probe was answered and none was answered faster, nor
/// an earlier one as fast.
pub open spec fn is_fastest(reports: Seq<ProbeReport>, i: int) -> bool {
    &&& answered(reports, i)
    &&& forall|j: int| #[trigger]
        answered(reports, j) ==> {
            ||| reports[i].latency_ms->0 < reports[j].latency_ms->0
            ||| reports[i].latency_ms->0 == reports[j].latency_ms->0 && i <= j
        }
}

/// At most one probe is the fastest.
pub proof fn fastest_is_unique(reports: Seq<ProbeReport>, i: int, j: int)
    requires
        is_fastest(reports, i),
        is_fastest(reports, j),
    ensures
        i == j,
{
    assert(answered(reports, i));
    assert(answered(reports, j));
}

/// The line of the fastest probe that was answered, the earliest of them
/// where several were equally fast; `NoEndpointAvailable` where none was
/// answered.
pub fn fastest_line(reports: &Vec<ProbeReport>) -> (line: Result<UploadLine, UploadError>)
    ensures
        match line {
            Ok(found) => exists|i: int| #[trigger]
                is_fastest(reports@, i) && reports@[i].line == found,
            Err(error) => error == UploadError::NoEndpointAvailable && forall|i: int|
                !#[trigger] answered(reports@, i),
        },
{
    let mut best: Option<usize> = None;
    let mut best_latency: u128 = 0;
    let mut at: usize = 0;
    while at < reports.len()
        invariant
            at <= reports.len(),
            best is None ==> forall|i: int| 0 <= i < at ==> !#[trigger] answered(reports@, i),
            best matches Some(b) ==> {
                &&& b < at
                &&& answered(reports@, b as int)
                &&& reports@[b as int].latency_ms->0 == best_latency
                &&& forall|j: int|
                    0 <= j < at && #[trigger] answered(reports@, j) ==> {
                        ||| best_latency < reports@[j].latency_ms->0
                        ||| best_latency == reports@[j].latency_ms->0 && b <= j
                    }
            },
        decreases reports.len() - at,
    {
        match reports[at].latency_ms {
            Some(latency) => {
                if best.is_none() || latency < best_latency {
                    best = Some(at);
                    best_latency = latency;
                }
            },
            None => {},
        }
        at = at + 1;
    }
    match best {
        Some(b) => {
            assert(is_fastest(reports@, b as int));
            Ok(reports[b].line)
        },
        None => Err(UploadError::NoEndpointAvailable),
    }
}

} // verus!
