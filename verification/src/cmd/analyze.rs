//! Dispatch of the `analyze` command to its analysis modes.
use vstd::prelude::*;
use vstd::string::*;
use crate::analyzer::twiggy::AnalysisMode;
use crate::text::{push_str, str_is};

verus! {

broadcast use vstd::string::group_string_axioms;

/// The analysis that an `analyze` command asks for, with its options.
#[derive(Debug, Clone, PartialEq, Eq)]
pub enum AnalyzeCommand {
    /// Embedded assets, with the externalization guide when asked.
    Assets { guide: bool, json: bool },
    /// Dependencies, applying or previewing the fixes when asked.
    Dependencies { fix: bool, dry_run: bool, json: bool },
    /// Binary bloat (cargo-bloat).
    Bloat { json: bool },
    /// Feature flags.
    Features { json: bool },
    /// Panic sites.
    Panics { json: bool },
    /// A WASM binary with twiggy.
    WasmBinary { file: String, mode: AnalysisMode, json: bool },
}

/// Errors of the `analyze` command's arguments.
#[derive(Debug, Clone, PartialEq, Eq)]
pub enum AnalyzeError {
    /// The mode is none of the known ones.
    UnknownMode(String),
    /// A twiggy mode without a WASM file.
    WasmFileRequired,
}

impl AnalyzeError {
    /// The error message.
    pub fn to_string(&self) -> (r: String)
        ensures
            r@ == match *self {
                AnalyzeError::UnknownMode(m) => "Unknown analysis mode: "@ + m@
                    + ". Valid modes: assets, deps, features, bloat, panics, top, dominators, dead, monos"@,
                AnalyzeError::WasmFileRequired => "WASM file required for binary analysis mode (top/dominators/dead/monos)"@,
            },
    {
        match self {
            AnalyzeError::UnknownMode(m) => {
                let mut s = String::from_str("Unknown analysis mode: ");
                push_str(&mut s, m.as_str());
                push_str(
                    &mut s,
                    ". Valid modes: assets, deps, features, bloat, panics, top, dominators, dead, monos",
                );
                s
            },
            AnalyzeError::WasmFileRequired => String::from_str(
                "WASM file required for binary analysis mode (top/dominators/dead/monos)",
            ),
        }
    }
}

/// The twiggy mode that a mode name names.
pub open spec fn twiggy_mode(mode: Seq<char>) -> Option<AnalysisMode> {
    if mode == "top"@ {
        Some(AnalysisMode::Top)
    } else if mode == "dominators"@ {
        Some(AnalysisMode::Dominators)
    } else if mode == "dead"@ {
        Some(AnalysisMode::Dead)
    } else if mode == "monos"@ {
        Some(AnalysisMode::Monos)
    } else {
        None
    }
}

/// The command for `mode` (matched exactly, case and spaces included); the
/// twiggy modes need a file.
pub open spec fn analyze_command(
    file: Option<Seq<char>>,
    mode: Seq<char>,
    fix: bool,
    dry_run: bool,
    guide: bool,
    json: bool,
) -> Option<AnalyzeCommandView> {
    if mode == "assets"@ {
        Some(AnalyzeCommandView::Assets { guide, json })
    } else if mode == "deps"@ {
        Some(AnalyzeCommandView::Dependencies { fix, dry_run, json })
    } else if mode == "bloat"@ {
        Some(AnalyzeCommandView::Bloat { json })
    } else if mode == "features"@ {
        Some(AnalyzeCommandView::Features { json })
    } else if mode == "panics"@ {
        Some(AnalyzeCommandView::Panics { json })
    } else if twiggy_mode(mode) is Some && file is Some {
        Some(AnalyzeCommandView::WasmBinary { file: file.unwrap(), mode: twiggy_mode(mode).unwrap(), json })
    } else {
        None
    }
}

pub open spec fn opt_text(o: Option<String>) -> Option<Seq<char>> {
    match o {
        Some(s) => Some(s@),
        None => None,
    }
}

/// The value of an `AnalyzeCommand`.
pub enum AnalyzeCommandView {
    Assets { guide: bool, json: bool },
    Dependencies { fix: bool, dry_run: bool, json: bool },
    Bloat { json: bool },
    Features { json: bool },
    Panics { json: bool },
    WasmBinary { file: Seq<char>, mode: AnalysisMode, json: bool },
}

pub open spec fn command_view(c: AnalyzeCommand) -> AnalyzeCommandView {
    match c {
        AnalyzeCommand::Assets { guide, json } => AnalyzeCommandView::Assets { guide, json },
        AnalyzeCommand::Dependencies { fix, dry_run, json } => AnalyzeCommandView::Dependencies {
            fix,
            dry_run,
            json,
        },
        AnalyzeCommand::Bloat { json } => AnalyzeCommandView::Bloat { json },
        AnalyzeCommand::Features { json } => AnalyzeCommandView::Features { json },
        AnalyzeCommand::Panics { json } => AnalyzeCommandView::Panics { json },
        AnalyzeCommand::WasmBinary { file, mode, json } => AnalyzeCommandView::WasmBinary {
            file: file@,
            mode,
            json,
        },
    }
}

/// Decides what `wasm-slim analyze` runs: the analysis that `mode` names, or
/// `UnknownMode` (listing the valid modes); a twiggy mode (`top`,
/// `dominators`, `dead`, `monos`) without a file is `WasmFileRequired`.
pub fn cmd_analyze(
    file: &Option<String>,
    mode: &str,
    fix: bool,
    dry_run: bool,
    guide: bool,
    json: bool,
) -> (r: Result<AnalyzeCommand, AnalyzeError>)
    ensures
        r matches Ok(c) ==> analyze_command(opt_text(*file), mode@, fix, dry_run, guide, json)
            == Some(command_view(c)),
        r is Err ==> analyze_command(opt_text(*file), mode@, fix, dry_run, guide, json) is None,
        (r matches Err(AnalyzeError::WasmFileRequired)) <==> (twiggy_mode(mode@) is Some && (*file) is None),
        r matches Err(AnalyzeError::UnknownMode(m)) ==> m@ == mode@,
        (r is Err && !(twiggy_mode(mode@) is Some && (*file) is None)) ==> r matches Err(
            AnalyzeError::UnknownMode(_),
        ),
{
    proof {
        reveal_strlit("assets");
        reveal_strlit("deps");
        reveal_strlit("bloat");
        reveal_strlit("features");
        reveal_strlit("panics");
        reveal_strlit("top");
        reveal_strlit("dominators");
        reveal_strlit("dead");
        reveal_strlit("monos");
        assert("assets"@.len() == 6);
        assert("deps"@.len() == 4);
        assert("bloat"@.len() == 5);
        assert("features"@.len() == 8);
        assert("panics"@.len() == 6);
        assert("top"@.len() == 3);
        assert("dominators"@.len() == 10);
        assert("dead"@.len() == 4);
        assert("monos"@.len() == 5);
        assert("assets"@ != "top"@);
        assert("assets"@ != "dominators"@);
        assert("assets"@ != "dead"@);
        assert("assets"@ != "monos"@);
        assert(twiggy_mode("assets"@) is None);
        assert("deps"@ != "top"@);
        assert("deps"@ != "dominators"@);
        assert("deps"@[2] != "dead"@[2]);
        assert("deps"@ != "dead"@);
        assert("deps"@ != "monos"@);
        assert(twiggy_mode("deps"@) is None);
        assert("bloat"@ != "top"@);
        assert("bloat"@ != "dominators"@);
        assert("bloat"@ != "dead"@);
        assert("bloat"@[0] != "monos"@[0]);
        assert("bloat"@ != "monos"@);
        assert(twiggy_mode("bloat"@) is None);
        assert("features"@ != "top"@);
        assert("features"@ != "dominators"@);
        assert("features"@ != "dead"@);
        assert("features"@ != "monos"@);
        assert(twiggy_mode("features"@) is None);
        assert("panics"@ != "top"@);
        assert("panics"@ != "dominators"@);
        assert("panics"@ != "dead"@);
        assert("panics"@ != "monos"@);
        assert(twiggy_mode("panics"@) is None);
    }
    if str_is(mode, "assets") {
        Ok(AnalyzeCommand::Assets { guide, json })
    } else if str_is(mode, "deps") {
        Ok(AnalyzeCommand::Dependencies { fix, dry_run, json })
    } else if str_is(mode, "bloat") {
        Ok(AnalyzeCommand::Bloat { json })
    } else if str_is(mode, "features") {
        Ok(AnalyzeCommand::Features { json })
    } else if str_is(mode, "panics") {
        Ok(AnalyzeCommand::Panics { json })
    } else {
        let twiggy = if str_is(mode, "top") {
            Some(AnalysisMode::Top)
        } else if str_is(mode, "dominators") {
            Some(AnalysisMode::Dominators)
        } else if str_is(mode, "dead") {
            Some(AnalysisMode::Dead)
        } else if str_is(mode, "monos") {
            Some(AnalysisMode::Monos)
        } else {
            None
        };
        match twiggy {
            Some(m) => match file {
                Some(f) => Ok(AnalyzeCommand::WasmBinary { file: f.clone(), mode: m, json }),
                None => Err(AnalyzeError::WasmFileRequired),
            },
            None => Err(AnalyzeError::UnknownMode(String::from_str(mode))),
        }
    }
}

} // verus!
