//! Database of known heavy dependencies and their lighter alternatives,
//! drawn from real-world WASM size case studies.
use vstd::prelude::*;
use crate::text::str_is;

verus! {

broadcast use vstd::string::group_string_axioms;

/// Type of dependency alternative recommendation.
#[derive(Debug, Clone, Copy, PartialEq, Eq, Hash, Structural)]
pub enum AlternativeType {
    /// Replace with a different crate.
    Replacement,
    /// Minimize features with `default-features = false`.
    FeatureMinimization,
    /// Split a monolith into components.
    Split,
    /// Make the dependency optional behind a feature flag.
    Optional,
    /// Fix a WASM-specific issue.
    WasmFix,
}

/// An alternative to a heavy dependency.
#[derive(Debug, Clone)]
pub struct DependencyAlternative {
    /// Type of alternative.
    pub alt_type: AlternativeType,
    /// Crate name (for a replacement).
    pub crate_name: Option<&'static str>,
    /// Expected size in KB.
    pub size_kb: Option<(u32, u32)>,
    /// Estimated savings percentage.
    pub savings_percent: u8,
    /// Description.
    pub description: &'static str,
}

/// A known heavy dependency with metadata.
#[derive(Debug)]
pub struct HeavyDependency {
    /// Typical size range in KB.
    pub size_kb: (u32, u32),
    /// Percentage of a typical bundle.
    pub bundle_percent: Option<(u8, u8)>,
    /// Why it is heavy.
    pub reason: &'static str,
    /// Recommended alternatives.
    pub alternatives: Vec<DependencyAlternative>,
}

/// The mathematical value of a `DependencyAlternative`.
pub struct AltSpec {
    pub alt_type: AlternativeType,
    pub crate_name: Option<Seq<char>>,
    pub size_kb: Option<(u32, u32)>,
    pub savings_percent: u8,
    pub description: Seq<char>,
}

/// The mathematical value of a `HeavyDependency`.
pub struct HeavySpec {
    pub size_kb: (u32, u32),
    pub bundle_percent: Option<(u8, u8)>,
    pub reason: Seq<char>,
    pub alternatives: Seq<AltSpec>,
}

impl View for DependencyAlternative {
    type V = AltSpec;

    open spec fn view(&self) -> AltSpec {
        AltSpec {
            alt_type: self.alt_type,
            crate_name: match self.crate_name {
                Some(c) => Some(c@),
                None => None,
            },
            size_kb: self.size_kb,
            savings_percent: self.savings_percent,
            description: self.description@,
        }
    }
}

impl View for HeavyDependency {
    type V = HeavySpec;

    open spec fn view(&self) -> HeavySpec {
        HeavySpec {
            size_kb: self.size_kb,
            bundle_percent: self.bundle_percent,
            reason: self.reason@,
            alternatives: self.alternatives@.map_values(|a: DependencyAlternative| a@),
        }
    }
}

/// The database: what is known of each heavy dependency, by crate name.
pub open spec fn heavy_db(name: Seq<char>) -> Option<HeavySpec> {
    if name == "swc_core"@ {
        Some(HeavySpec {
            size_kb: (1000, 1500),
            bundle_percent: Some((30, 45)),
            reason: "Full compiler suite with all features"@,
            alternatives: seq![
                AltSpec {
                    alt_type: AlternativeType::Split,
                    crate_name: Some("swc_ecma_parser"@),
                    size_kb: Some((400, 600)),
                    savings_percent: 60,
                    description: "Split into minimal components (parser + AST only)"@,
                }
            ],
        })
    } else if name == "printpdf"@ {
        Some(HeavySpec {
            size_kb: (800, 1000),
            bundle_percent: Some((15, 25)),
            reason: "Full-featured PDF library with many formats"@,
            alternatives: seq![
                AltSpec {
                    alt_type: AlternativeType::Replacement,
                    crate_name: Some("pdf-writer"@),
                    size_kb: Some((200, 400)),
                    savings_percent: 50,
                    description: "Lightweight PDF writer for simple use cases"@,
                },
                AltSpec {
                    alt_type: AlternativeType::Replacement,
                    crate_name: Some("lopdf"@),
                    size_kb: Some((400, 600)),
                    savings_percent: 30,
                    description: "PDF library with minimal features (no rayon)"@,
                }
            ],
        })
    } else if name == "lopdf"@ {
        Some(HeavySpec {
            size_kb: (400, 800),
            bundle_percent: Some((10, 20)),
            reason: "Default includes rayon (doesn't work in WASM)"@,
            alternatives: seq![
                AltSpec {
                    alt_type: AlternativeType::FeatureMinimization,
                    crate_name: None,
                    size_kb: Some((400, 600)),
                    savings_percent: 25,
                    description: "Disable rayon and unused features"@,
                }
            ],
        })
    } else if name == "tokio"@ {
        Some(HeavySpec {
            size_kb: (500, 1000),
            bundle_percent: Some((15, 30)),
            reason: "Async runtime doesn't work in WASM"@,
            alternatives: seq![
                AltSpec {
                    alt_type: AlternativeType::WasmFix,
                    crate_name: Some("wasm-bindgen-futures"@),
                    size_kb: Some((50, 100)),
                    savings_percent: 80,
                    description: "WASM-specific async runtime"@,
                }
            ],
        })
    } else if name == "async-std"@ {
        Some(HeavySpec {
            size_kb: (400, 800),
            bundle_percent: Some((10, 25)),
            reason: "Async runtime doesn't work in WASM"@,
            alternatives: seq![
                AltSpec {
                    alt_type: AlternativeType::WasmFix,
                    crate_name: Some("wasm-bindgen-futures"@),
                    size_kb: Some((50, 100)),
                    savings_percent: 80,
                    description: "WASM-specific async runtime"@,
                }
            ],
        })
    } else if name == "rustybuzz"@ {
        Some(HeavySpec {
            size_kb: (400, 600),
            bundle_percent: Some((10, 15)),
            reason: "Full text shaping library"@,
            alternatives: seq![
                AltSpec {
                    alt_type: AlternativeType::Optional,
                    crate_name: None,
                    size_kb: Some((0, 0)),
                    savings_percent: 100,
                    description: "Make optional via feature flag (removes from default build)"@,
                }
            ],
        })
    } else if name == "chrono"@ {
        Some(HeavySpec {
            size_kb: (300, 500),
            bundle_percent: Some((8, 15)),
            reason: "Feature-rich date/time library"@,
            alternatives: seq![
                AltSpec {
                    alt_type: AlternativeType::Replacement,
                    crate_name: Some("time"@),
                    size_kb: Some((150, 250)),
                    savings_percent: 40,
                    description: "Lighter date/time library"@,
                },
                AltSpec {
                    alt_type: AlternativeType::WasmFix,
                    crate_name: Some("js-sys"@),
                    size_kb: Some((50, 100)),
                    savings_percent: 70,
                    description: "Use browser Date API (WASM only)"@,
                }
            ],
        })
    } else if name == "regex"@ {
        Some(HeavySpec {
            size_kb: (300, 600),
            bundle_percent: Some((8, 15)),
            reason: "Large unicode tables included by default"@,
            alternatives: seq![
                AltSpec {
                    alt_type: AlternativeType::FeatureMinimization,
                    crate_name: None,
                    size_kb: Some((100, 200)),
                    savings_percent: 60,
                    description: "Disable unicode support if not needed"@,
                }
            ],
        })
    } else if name == "image"@ {
        Some(HeavySpec {
            size_kb: (400, 800),
            bundle_percent: Some((10, 20)),
            reason: "Includes all image format codecs by default"@,
            alternatives: seq![
                AltSpec {
                    alt_type: AlternativeType::FeatureMinimization,
                    crate_name: None,
                    size_kb: Some((150, 300)),
                    savings_percent: 50,
                    description: "Enable only needed image formats"@,
                }
            ],
        })
    } else if name == "getrandom"@ {
        Some(HeavySpec {
            size_kb: (50, 100),
            bundle_percent: None,
            reason: "Default doesn't work in WASM (missing OS entropy)"@,
            alternatives: seq![
                AltSpec {
                    alt_type: AlternativeType::WasmFix,
                    crate_name: None,
                    size_kb: Some((50, 100)),
                    savings_percent: 0,
                    description: "Enable WASM support (required for functionality, not size)"@,
                }
            ],
        })
    } else {
        None
    }
}

/// The database's consistency: ranges are ordered, bundle percentages lie in
/// 1..=100, every entry offers an alternative, and no alternative is more than
/// twice the lower size of what it replaces.
pub open spec fn heavy_wf(h: HeavySpec) -> bool {
    &&& h.size_kb.0 <= h.size_kb.1
    &&& h.alternatives.len() > 0
    &&& (h.bundle_percent matches Some((lo, hi)) ==> 0 < lo && lo <= hi && hi <= 100)
    &&& forall|i: int|
        0 <= i < h.alternatives.len() ==> {
            &&& (#[trigger] h.alternatives[i]).savings_percent <= 100
            &&& (h.alternatives[i].size_kb matches Some((a, b)) ==> a <= b && b <= 2 * h.size_kb.0)
        }
}

/// Get information about a heavy dependency.
pub fn get_heavy_dependency_info(name: &str) -> (r: Option<HeavyDependency>)
    ensures
        match r {
            Some(h) => heavy_db(name@) == Some(h@),
            None => heavy_db(name@) is None,
        },
        r matches Some(h) ==> heavy_wf(h@),
{
    if str_is(name, "swc_core") {
        let alternatives = vec![
                DependencyAlternative {
                    alt_type: AlternativeType::Split,
                    crate_name: Some("swc_ecma_parser"),
                    size_kb: Some((400, 600)),
                    savings_percent: 60,
                    description: "Split into minimal components (parser + AST only)",
                }
            ];
        let h = HeavyDependency {
            size_kb: (1000, 1500),
            bundle_percent: Some((30, 45)),
            reason: "Full compiler suite with all features",
            alternatives,
        };
        assert(h@.alternatives == heavy_db(name@).unwrap().alternatives);
        Some(h)
    } else if str_is(name, "printpdf") {
        let alternatives = vec![
                DependencyAlternative {
                    alt_type: AlternativeType::Replacement,
                    crate_name: Some("pdf-writer"),
                    size_kb: Some((200, 400)),
                    savings_percent: 50,
                    description: "Lightweight PDF writer for simple use cases",
                },
                DependencyAlternative {
                    alt_type: AlternativeType::Replacement,
                    crate_name: Some("lopdf"),
                    size_kb: Some((400, 600)),
                    savings_percent: 30,
                    description: "PDF library with minimal features (no rayon)",
                }
            ];
        let h = HeavyDependency {
            size_kb: (800, 1000),
            bundle_percent: Some((15, 25)),
            reason: "Full-featured PDF library with many formats",
            alternatives,
        };
        assert(h@.alternatives == heavy_db(name@).unwrap().alternatives);
        Some(h)
    } else if str_is(name, "lopdf") {
        let alternatives = vec![
                DependencyAlternative {
                    alt_type: AlternativeType::FeatureMinimization,
                    crate_name: None,
                    size_kb: Some((400, 600)),
                    savings_percent: 25,
                    description: "Disable rayon and unused features",
                }
            ];
        let h = HeavyDependency {
            size_kb: (400, 800),
            bundle_percent: Some((10, 20)),
            reason: "Default includes rayon (doesn't work in WASM)",
            alternatives,
        };
        assert(h@.alternatives == heavy_db(name@).unwrap().alternatives);
        Some(h)
    } else if str_is(name, "tokio") {
        let alternatives = vec![
                DependencyAlternative {
                    alt_type: AlternativeType::WasmFix,
                    crate_name: Some("wasm-bindgen-futures"),
                    size_kb: Some((50, 100)),
                    savings_percent: 80,
                    description: "WASM-specific async runtime",
                }
            ];
        let h = HeavyDependency {
            size_kb: (500, 1000),
            bundle_percent: Some((15, 30)),
            reason: "Async runtime doesn't work in WASM",
            alternatives,
        };
        assert(h@.alternatives == heavy_db(name@).unwrap().alternatives);
        Some(h)
    } else if str_is(name, "async-std") {
        let alternatives = vec![
                DependencyAlternative {
                    alt_type: AlternativeType::WasmFix,
                    crate_name: Some("wasm-bindgen-futures"),
                    size_kb: Some((50, 100)),
                    savings_percent: 80,
                    description: "WASM-specific async runtime",
                }
            ];
        let h = HeavyDependency {
            size_kb: (400, 800),
            bundle_percent: Some((10, 25)),
            reason: "Async runtime doesn't work in WASM",
            alternatives,
        };
        assert(h@.alternatives == heavy_db(name@).unwrap().alternatives);
        Some(h)
    } else if str_is(name, "rustybuzz") {
        let alternatives = vec![
                DependencyAlternative {
                    alt_type: AlternativeType::Optional,
                    crate_name: None,
                    size_kb: Some((0, 0)),
                    savings_percent: 100,
                    description: "Make optional via feature flag (removes from default build)",
                }
            ];
        let h = HeavyDependency {
            size_kb: (400, 600),
            bundle_percent: Some((10, 15)),
            reason: "Full text shaping library",
            alternatives,
        };
        assert(h@.alternatives == heavy_db(name@).unwrap().alternatives);
        Some(h)
    } else if str_is(name, "chrono") {
        let alternatives = vec![
                DependencyAlternative {
                    alt_type: AlternativeType::Replacement,
                    crate_name: Some("time"),
                    size_kb: Some((150, 250)),
                    savings_percent: 40,
                    description: "Lighter date/time library",
                },
                DependencyAlternative {
                    alt_type: AlternativeType::WasmFix,
                    crate_name: Some("js-sys"),
                    size_kb: Some((50, 100)),
                    savings_percent: 70,
                    description: "Use browser Date API (WASM only)",
                }
            ];
        let h = HeavyDependency {
            size_kb: (300, 500),
            bundle_percent: Some((8, 15)),
            reason: "Feature-rich date/time library",
            alternatives,
        };
        assert(h@.alternatives == heavy_db(name@).unwrap().alternatives);
        Some(h)
    } else if str_is(name, "regex") {
        let alternatives = vec![
                DependencyAlternative {
                    alt_type: AlternativeType::FeatureMinimization,
                    crate_name: None,
                    size_kb: Some((100, 200)),
                    savings_percent: 60,
                    description: "Disable unicode support if not needed",
                }
            ];
        let h = HeavyDependency {
            size_kb: (300, 600),
            bundle_percent: Some((8, 15)),
            reason: "Large unicode tables included by default",
            alternatives,
        };
        assert(h@.alternatives == heavy_db(name@).unwrap().alternatives);
        Some(h)
    } else if str_is(name, "image") {
        let alternatives = vec![
                DependencyAlternative {
                    alt_type: AlternativeType::FeatureMinimization,
                    crate_name: None,
                    size_kb: Some((150, 300)),
                    savings_percent: 50,
                    description: "Enable only needed image formats",
                }
            ];
        let h = HeavyDependency {
            size_kb: (400, 800),
            bundle_percent: Some((10, 20)),
            reason: "Includes all image format codecs by default",
            alternatives,
        };
        assert(h@.alternatives == heavy_db(name@).unwrap().alternatives);
        Some(h)
    } else if str_is(name, "getrandom") {
        let alternatives = vec![
                DependencyAlternative {
                    alt_type: AlternativeType::WasmFix,
                    crate_name: None,
                    size_kb: Some((50, 100)),
                    savings_percent: 0,
                    description: "Enable WASM support (required for functionality, not size)",
                }
            ];
        let h = HeavyDependency {
            size_kb: (50, 100),
            bundle_percent: None,
            reason: "Default doesn't work in WASM (missing OS entropy)",
            alternatives,
        };
        assert(h@.alternatives == heavy_db(name@).unwrap().alternatives);
        Some(h)
    } else {
        None
    }
}

/// The crate names that the database knows.
pub open spec fn heavy_names() -> Seq<Seq<char>> {
    seq!["swc_core"@, "printpdf"@, "lopdf"@, "tokio"@, "async-std"@, "rustybuzz"@, "chrono"@, "regex"@, "image"@, "getrandom"@]
}

/// The whole database, one entry per known crate.
pub fn init_heavy_deps_database() -> (db: Vec<(&'static str, HeavyDependency)>)
    ensures
        db@.len() == heavy_names().len(),
        forall|i: int|
            0 <= i < db@.len() ==> (#[trigger] db@[i]).0@ == heavy_names()[i] && heavy_db(
                db@[i].0@,
            ) == Some(db@[i].1@),
{
    let names: Vec<&'static str> = vec!["swc_core", "printpdf", "lopdf", "tokio", "async-std", "rustybuzz", "chrono", "regex", "image", "getrandom"];
    let mut db: Vec<(&'static str, HeavyDependency)> = Vec::new();
    let mut i: usize = 0;
    while i < names.len()
        invariant
            names@.len() == heavy_names().len(),
            forall|j: int| 0 <= j < names@.len() ==> (#[trigger] names@[j])@ == heavy_names()[j],
            i <= names@.len(),
            db@.len() == i,
            forall|j: int|
                0 <= j < i ==> (#[trigger] db@[j]).0@ == heavy_names()[j] && heavy_db(db@[j].0@)
                    == Some(db@[j].1@),
        decreases names@.len() - i,
    {
        let name = names[i];
        match get_heavy_dependency_info(name) {
            Some(h) => db.push((name, h)),
            None => {
                assert(heavy_db(name@) is Some);
                return db;
            },
        }
        i = i + 1;
    }
    db
}

} // verus!
