//! Applying the planned dependency fixes to the text of a `Cargo.toml`.
//!
//! The manifest is read and edited with `toml_edit`, which keeps comments,
//! spacing and the order of items. Each read or edit below parses the text it
//! is given and, for an edit, writes the document back out; what it returns is
//! named after the text and its other arguments, so the fixes over a whole
//! report are stated exactly in those names.
use vstd::prelude::*;
use vstd::string::*;
use toml_edit::{Array, DocumentMut, Item, Table, Value};
use crate::analyzer::applicator::{
    ActionView,
    DepEntry,
    EntryKeys,
    EntryView,
    FeaturesKey,
    FeaturesView,
    FixAction,
    KeysView,
    SuggestionApplicator,
    action_view,
    entry_view,
    features_view,
    fix_plan,
    issue_packages,
    opt_view,
    target_views,
    targets_for,
};
use crate::analyzer::deps_types::DependencyReport;
use crate::analyzer::heavy_deps::AlternativeType;
use crate::text::{string_views, to_string};

verus! {

broadcast use vstd::string::group_string_axioms;

/// How `[dependencies]` writes a package, before its keys are read.
#[derive(Debug, Clone)]
pub enum DepShape {
    /// No `[dependencies]` table, or no entry for the package.
    Missing,
    /// `name = "version"`.
    Version(String),
    /// `name = { ... }`.
    Inline,
    /// `[dependencies.name]`.
    Table,
    /// Any other value.
    Other,
}

/// The value of a `DepShape`.
pub enum ShapeView {
    Missing,
    Version(Seq<char>),
    Inline,
    Table,
    Other,
}

pub open spec fn shape_view(s: DepShape) -> ShapeView {
    match s {
        DepShape::Missing => ShapeView::Missing,
        DepShape::Version(v) => ShapeView::Version(v@),
        DepShape::Inline => ShapeView::Inline,
        DepShape::Table => ShapeView::Table,
        DepShape::Other => ShapeView::Other,
    }
}

/// Whether `toml_edit` parses `text` as a TOML document.
pub uninterp spec fn manifest_parses(text: Seq<char>) -> bool;

/// How the `[dependencies]` table of the document `text` writes `name`.
pub uninterp spec fn manifest_shape(text: Seq<char>, name: Seq<char>) -> ShapeView;

/// Whether the entry of `name` in `[dependencies]` of `text` has the key `key`.
pub uninterp spec fn manifest_has_key(text: Seq<char>, name: Seq<char>, key: Seq<char>) -> bool;

/// The string under `key` in the entry of `name`, if it is a string.
pub uninterp spec fn manifest_str(text: Seq<char>, name: Seq<char>, key: Seq<char>) -> Option<
    Seq<char>,
>;

/// The `features` key of the entry of `name`.
pub uninterp spec fn manifest_features(text: Seq<char>, name: Seq<char>) -> FeaturesView;

/// `text` with the entry of `name` replaced by a table holding `version`.
pub uninterp spec fn manifest_with_table(text: Seq<char>, name: Seq<char>, version: Seq<char>) -> Seq<
    char,
>;

/// `text` with the inline-table entry of `name` rewritten as a regular table
/// with the same keys and values.
pub uninterp spec fn manifest_inline_to_table(text: Seq<char>, name: Seq<char>) -> Seq<char>;

/// `text` with `key = false` set in the table entry of `name`.
pub uninterp spec fn manifest_set_false(text: Seq<char>, name: Seq<char>, key: Seq<char>) -> Seq<
    char,
>;

/// `text` with `key` set to the array of `items` in the table entry of `name`.
pub uninterp spec fn manifest_set_array(
    text: Seq<char>,
    name: Seq<char>,
    key: Seq<char>,
    items: Seq<Seq<char>>,
) -> Seq<char>;

/// `text` with `items` pushed onto the array under `key` in the table entry of
/// `name`, the array created empty first where the key is absent.
pub uninterp spec fn manifest_appended(
    text: Seq<char>,
    name: Seq<char>,
    key: Seq<char>,
    items: Seq<Seq<char>>,
) -> Seq<char>;

/// Parses `text` with `toml_edit` (`str::parse::<DocumentMut>`) and reads how
/// `[dependencies]` (when it is a table) writes `name`: missing, a version
/// string, an inline table, a table, or something else. `None` exactly when
/// the text does not parse; the rest is named `manifest_shape`.
#[verifier::external_body]
fn read_shape(text: &str, name: &str) -> (r: Option<DepShape>)
    ensures
        r is Some <==> manifest_parses(text@),
        r matches Some(s) ==> shape_view(s) == manifest_shape(text@, name@),
{
    let doc = text.parse::<DocumentMut>().ok()?;
    let entry = match doc.get("dependencies") {
        Some(Item::Table(deps)) => deps.get(name),
        _ => None,
    };
    Some(match entry {
        None => DepShape::Missing,
        Some(Item::Value(Value::String(s))) => DepShape::Version(s.value().to_string()),
        Some(Item::Value(Value::InlineTable(_))) => DepShape::Inline,
        Some(Item::Table(_)) => DepShape::Table,
        Some(_) => DepShape::Other,
    })
}

/// Parses `text` and reads whether the entry of `name` in the `[dependencies]`
/// table has `key` (`Item::get`). `None` exactly when the text does not parse;
/// the rest is named `manifest_has_key`.
#[verifier::external_body]
fn read_has_key(text: &str, name: &str, key: &str) -> (r: Option<bool>)
    ensures
        r is Some <==> manifest_parses(text@),
        r matches Some(b) ==> b == manifest_has_key(text@, name@, key@),
{
    let doc = text.parse::<DocumentMut>().ok()?;
    let entry = match doc.get("dependencies") {
        Some(Item::Table(deps)) => deps.get(name),
        _ => None,
    };
    match entry {
        Some(e) => Some(e.get(key).is_some()),
        None => Some(false),
    }
}

/// Parses `text` and reads the string under `key` in the entry of `name`
/// (`Item::get`, then `Item::as_str`). `None` exactly when the text does not
/// parse; the rest is named `manifest_str`.
#[verifier::external_body]
fn read_str(text: &str, name: &str, key: &str) -> (r: Option<Option<String>>)
    ensures
        r is Some <==> manifest_parses(text@),
        r matches Some(v) ==> opt_view(v) == manifest_str(text@, name@, key@),
{
    let doc = text.parse::<DocumentMut>().ok()?;
    let entry = match doc.get("dependencies") {
        Some(Item::Table(deps)) => deps.get(name),
        _ => None,
    };
    match entry {
        Some(e) => match e.get(key) {
            Some(v) => Some(v.as_str().map(String::from)),
            None => Some(None),
        },
        None => Some(None),
    }
}

/// Parses `text` and reads the `features` key of the entry of `name`: absent
/// (or not a value), an array (each element's text where it is a string), or
/// another value. `None` exactly when the text does not parse; the rest is
/// named `manifest_features`.
#[verifier::external_body]
fn read_features(text: &str, name: &str) -> (r: Option<FeaturesKey>)
    ensures
        r is Some <==> manifest_parses(text@),
        r matches Some(k) ==> features_view(k) == manifest_features(text@, name@),
{
    let doc = text.parse::<DocumentMut>().ok()?;
    let features = match doc.get("dependencies") {
        Some(Item::Table(deps)) => deps.get(name).and_then(|e| e.get("features")),
        _ => None,
    };
    Some(match features {
        Some(Item::Value(Value::Array(a))) => {
            FeaturesKey::Array(a.iter().map(|x| x.as_str().map(String::from)).collect())
        },
        Some(Item::Value(_)) => FeaturesKey::NotArray,
        _ => FeaturesKey::Absent,
    })
}

/// Parses `text`, replaces the entry of `name` in the `[dependencies]` table by
/// a table holding `version = "<version>"`, and writes the document out
/// (`Display`). `None` exactly when the text does not parse; the written text
/// is named `manifest_with_table`.
#[verifier::external_body]
fn write_table(text: &str, name: &str, version: &str) -> (r: Option<String>)
    ensures
        r is Some <==> manifest_parses(text@),
        r matches Some(t) ==> t@ == manifest_with_table(text@, name@, version@),
{
    let mut doc = text.parse::<DocumentMut>().ok()?;
    if let Some(Item::Table(deps)) = doc.get_mut("dependencies") {
        let mut t = Table::new();
        t.insert("version", toml_edit::value(version));
        deps[name] = Item::Table(t);
    }
    Some(doc.to_string())
}

/// Parses `text`, rewrites the inline-table entry of `name` as a regular table
/// holding the same keys and values, and writes the document out. `None`
/// exactly when the text does not parse; the written text is named
/// `manifest_inline_to_table`.
#[verifier::external_body]
fn write_inline_to_table(text: &str, name: &str) -> (r: Option<String>)
    ensures
        r is Some <==> manifest_parses(text@),
        r matches Some(t) ==> t@ == manifest_inline_to_table(text@, name@),
{
    let mut doc = text.parse::<DocumentMut>().ok()?;
    if let Some(Item::Table(deps)) = doc.get_mut("dependencies") {
        if let Some(Item::Value(Value::InlineTable(inline))) = deps.get(name).cloned() {
            let mut t = Table::new();
            for (key, val) in inline.iter() {
                t.insert(key, Item::Value(val.clone()));
            }
            deps[name] = Item::Table(t);
        }
    }
    Some(doc.to_string())
}

/// Parses `text`, sets `key = false` in the table entry of `name`
/// (`Table::insert`), and writes the document out. `None` exactly when the
/// text does not parse; the written text is named `manifest_set_false`.
#[verifier::external_body]
fn write_false(text: &str, name: &str, key: &str) -> (r: Option<String>)
    ensures
        r is Some <==> manifest_parses(text@),
        r matches Some(t) ==> t@ == manifest_set_false(text@, name@, key@),
{
    let mut doc = text.parse::<DocumentMut>().ok()?;
    if let Some(Item::Table(deps)) = doc.get_mut("dependencies") {
        if let Some(Item::Table(t)) = deps.get_mut(name) {
            t.insert(key, toml_edit::value(false));
        }
    }
    Some(doc.to_string())
}

/// Parses `text`, sets `key` to an array of `items` in the table entry of
/// `name`, and writes the document out. `None` exactly when the text does not
/// parse; the written text is named `manifest_set_array`.
#[verifier::external_body]
fn write_array(text: &str, name: &str, key: &str, items: &Vec<String>) -> (r: Option<String>)
    ensures
        r is Some <==> manifest_parses(text@),
        r matches Some(t) ==> t@ == manifest_set_array(text@, name@, key@, string_views(items@)),
{
    let mut doc = text.parse::<DocumentMut>().ok()?;
    if let Some(Item::Table(deps)) = doc.get_mut("dependencies") {
        if let Some(Item::Table(t)) = deps.get_mut(name) {
            t.insert(key, toml_edit::value(items.iter().map(String::as_str).collect::<Array>()));
        }
    }
    Some(doc.to_string())
}

/// Parses `text`, pushes `items` onto the array under `key` in the table entry
/// of `name` (`Table::entry`, inserting an empty array where the key is
/// absent, then `Array::push`), and writes the document out. `None` exactly
/// when the text does not parse; the written text is named `manifest_appended`.
#[verifier::external_body]
fn write_appended(text: &str, name: &str, key: &str, items: &Vec<String>) -> (r: Option<String>)
    ensures
        r is Some <==> manifest_parses(text@),
        r matches Some(t) ==> t@ == manifest_appended(text@, name@, key@, string_views(items@)),
{
    let mut doc = text.parse::<DocumentMut>().ok()?;
    if let Some(Item::Table(deps)) = doc.get_mut("dependencies") {
        if let Some(Item::Table(t)) = deps.get_mut(name) {
            let item = t.entry(key).or_insert(toml_edit::value(Array::new()));
            if let Some(arr) = item.as_array_mut() {
                for f in items {
                    arr.push(f.as_str());
                }
            }
        }
    }
    Some(doc.to_string())
}

/// Why fixes could not be applied to a manifest.
#[derive(Debug, Clone, Copy, PartialEq, Eq, Structural)]
pub enum ApplyError {
    /// The manifest is not a TOML document.
    Parse,
    /// A document written by an edit did not parse again.
    Reparse,
}

impl ApplyError {
    /// The error message.
    pub fn to_string(&self) -> (r: String)
        ensures
            r@ == match *self {
                ApplyError::Parse => "Failed to parse Cargo.toml"@,
                ApplyError::Reparse => "Failed to re-read the edited Cargo.toml"@,
            },
    {
        match self {
            ApplyError::Parse => String::from_str("Failed to parse Cargo.toml"),
            ApplyError::Reparse => String::from_str("Failed to re-read the edited Cargo.toml"),
        }
    }
}

/// How the manifest `text` writes `name`, read through the names above;
/// `None` when the text does not parse.
pub open spec fn manifest_entry(text: Seq<char>, name: Seq<char>) -> Option<EntryView> {
    if !manifest_parses(text) {
        None
    } else {
        let keys = KeysView {
            has_default_features: manifest_has_key(text, name, "default-features"@),
            features: manifest_features(text, name),
            version: manifest_str(text, name, "version"@),
        };
        Some(
            match manifest_shape(text, name) {
                ShapeView::Missing => EntryView::Missing,
                ShapeView::Version(v) => EntryView::Version(v),
                ShapeView::Inline => EntryView::Inline(keys),
                ShapeView::Table => EntryView::Table(keys),
                ShapeView::Other => EntryView::Other,
            },
        )
    }
}

/// One edit on a text that may already have failed to come out.
pub open spec fn step_false(t: Option<Seq<char>>, name: Seq<char>, key: Seq<char>) -> Option<Seq<char>> {
    match t {
        Some(x) => if manifest_parses(x) {
            Some(manifest_set_false(x, name, key))
        } else {
            None
        },
        None => None,
    }
}

pub open spec fn step_array(t: Option<Seq<char>>, name: Seq<char>, key: Seq<char>, items: Seq<Seq<char>>) -> Option<
    Seq<char>,
> {
    match t {
        Some(x) => if manifest_parses(x) {
            Some(manifest_set_array(x, name, key, items))
        } else {
            None
        },
        None => None,
    }
}

pub open spec fn step_appended(t: Option<Seq<char>>, name: Seq<char>, key: Seq<char>, items: Seq<Seq<char>>) -> Option<
    Seq<char>,
> {
    match t {
        Some(x) => if manifest_parses(x) {
            Some(manifest_appended(x, name, key, items))
        } else {
            None
        },
        None => None,
    }
}

/// The updates of a dependency table: `default-features = false` when asked,
/// then `features` when given, then the appended features when there are any.
pub open spec fn table_updates(
    t: Option<Seq<char>>,
    name: Seq<char>,
    default_features_off: bool,
    features: Option<Seq<Seq<char>>>,
    append: Seq<Seq<char>>,
) -> Option<Seq<char>> {
    let t1 = if default_features_off {
        step_false(t, name, "default-features"@)
    } else {
        t
    };
    let t2 = match features {
        Some(f) => step_array(t1, name, "features"@, f),
        None => t1,
    };
    if append.len() > 0 {
        step_appended(t2, name, "features"@, append)
    } else {
        t2
    }
}

/// The manifest after the edit `a` of the entry of `name`; `None` where a text
/// on the way does not parse.
pub open spec fn manifest_after(text: Seq<char>, name: Seq<char>, a: ActionView) -> Option<Seq<char>> {
    match a {
        ActionView::Keep => Some(text),
        ActionView::VersionToTable { version, default_features_off, features } => table_updates(
            if manifest_parses(text) {
                Some(manifest_with_table(text, name, version))
            } else {
                None
            },
            name,
            default_features_off,
            features,
            seq![],
        ),
        ActionView::InlineToTable { default_features_off, features, append_features } => table_updates(
            if manifest_parses(text) {
                Some(manifest_inline_to_table(text, name))
            } else {
                None
            },
            name,
            default_features_off,
            features,
            append_features,
        ),
        ActionView::UpdateTable { default_features_off, features, append_features } => table_updates(
            Some(text),
            name,
            default_features_off,
            features,
            append_features,
        ),
    }
}

/// The fixes of the targets `ts` applied in order to the manifest `text`: for
/// each, its entry is read from the text as it stands, its plan is made, and a
/// plan that changes the entry is carried out and recorded with its expected
/// savings. The result is the final text and the fixes made, in order, or
/// `None` where a text does not parse.
pub open spec fn fixes_over(text: Seq<char>, ts: Seq<(Seq<char>, AlternativeType, u8)>) -> Option<
    (Seq<char>, Seq<(Seq<char>, u8)>),
>
    decreases ts.len(),
{
    if ts.len() == 0 {
        if manifest_parses(text) {
            Some((text, seq![]))
        } else {
            None
        }
    } else {
        match fixes_over(text, ts.drop_last()) {
            None => None,
            Some((t, k)) => match manifest_entry(t, ts.last().0) {
                None => None,
                Some(e) => {
                    let plan = fix_plan(ts.last().0, ts.last().1, e);
                    if plan.0 {
                        match manifest_after(t, ts.last().0, plan.1) {
                            Some(t2) => Some((t2, k.push((ts.last().0, ts.last().2)))),
                            None => None,
                        }
                    } else {
                        Some((t, k))
                    }
                },
            },
        }
    }
}

pub open spec fn fixed_views(v: Seq<(String, u8)>) -> Seq<(Seq<char>, u8)> {
    v.map_values(|x: (String, u8)| (x.0@, x.1))
}

/// Reads how the manifest `text` writes `name`.
pub fn read_entry(text: &str, name: &str) -> (r: Option<DepEntry>)
    ensures
        match r {
            Some(e) => manifest_entry(text@, name@) == Some(entry_view(e)),
            None => manifest_entry(text@, name@) is None,
        },
{
    let shape = match read_shape(text, name) {
        Some(s) => s,
        None => {
            return None;
        },
    };
    match shape {
        DepShape::Missing => Some(DepEntry::Missing),
        DepShape::Version(v) => Some(DepEntry::Version(v)),
        DepShape::Other => Some(DepEntry::Other),
        DepShape::Inline | DepShape::Table => {
            let has = read_has_key(text, name, "default-features");
            let features = read_features(text, name);
            let version = read_str(text, name, "version");
            match (has, features, version) {
                (Some(h), Some(f), Some(v)) => {
                    let keys = EntryKeys { has_default_features: h, features: f, version: v };
                    proof {
                        reveal_strlit("default-features");
                        reveal_strlit("version");
                    }
                    match shape {
                        DepShape::Inline => Some(DepEntry::Inline(keys)),
                        _ => Some(DepEntry::Table(keys)),
                    }
                },
                _ => None,
            }
        },
    }
}

/// Applies the table updates to `t`.
fn update_table_text(
    t: Option<String>,
    name: &str,
    default_features_off: bool,
    features: &Option<Vec<String>>,
    append: &Vec<String>,
) -> (r: Option<String>)
    ensures
        opt_view(r) == table_updates(
            opt_view(t),
            name@,
            default_features_off,
            crate::analyzer::applicator::opt_list_view(*features),
            string_views(append@),
        ),
{
    let t1 = if default_features_off {
        match t {
            Some(x) => write_false(x.as_str(), name, "default-features"),
            None => None,
        }
    } else {
        t
    };
    let t2 = match features {
        Some(f) => match t1 {
            Some(x) => write_array(x.as_str(), name, "features", f),
            None => None,
        },
        None => t1,
    };
    if append.len() > 0 {
        match t2 {
            Some(x) => write_appended(x.as_str(), name, "features", append),
            None => None,
        }
    } else {
        t2
    }
}

/// Carries out the edit `action` of the entry of `name` in `text`.
pub fn apply_action(text: &str, name: &str, action: &FixAction) -> (r: Option<String>)
    ensures
        opt_view(r) == manifest_after(text@, name@, action_view(*action)),
{
    match action {
        FixAction::Keep => Some(to_string(text)),
        FixAction::VersionToTable { version, default_features_off, features } => {
            let t = write_table(text, name, version.as_str());
            let none: Vec<String> = Vec::new();
            assert(string_views(none@) == Seq::<Seq<char>>::empty());
            update_table_text(t, name, *default_features_off, features, &none)
        },
        FixAction::InlineToTable { default_features_off, features, append_features } => {
            let t = write_inline_to_table(text, name);
            update_table_text(t, name, *default_features_off, features, append_features)
        },
        FixAction::UpdateTable { default_features_off, features, append_features } => {
            let t = Some(to_string(text));
            update_table_text(t, name, *default_features_off, features, append_features)
        },
    }
}

impl SuggestionApplicator {
    /// Applies the fixes of `report` to the manifest text `text`: the targets of
    /// `fix_targets`, in order, each read from the text as edited so far, planned
    /// with `plan_fix`, and carried out where the plan changes the entry. Gives
    /// the edited text and the fixes made (each package with its expected
    /// savings), so their number is the number of fixes; `Parse` exactly when
    /// `text` is not a TOML document, and `Reparse` when an edited text does
    /// not parse again.
    pub fn apply_fixes_to_manifest(&self, text: &str, report: &DependencyReport) -> (r: Result<
        (String, Vec<(String, u8)>),
        ApplyError,
    >)
        ensures
            r is Err && r->Err_0 == ApplyError::Parse <==> !manifest_parses(text@),
            match r {
                Ok((t, fixed)) => fixes_over(text@, targets_for(issue_packages(report.issues@)))
                    == Some((t@, fixed_views(fixed@))),
                Err(ApplyError::Reparse) => fixes_over(
                    text@,
                    targets_for(issue_packages(report.issues@)),
                ) is None,
                Err(ApplyError::Parse) => true,
            },
    {
        if read_shape(text, "").is_none() {
            return Err(ApplyError::Parse);
        }
        let targets = self.fix_targets(report);
        let ghost ts = target_views(targets@);
        let mut current = to_string(text);
        let mut fixed: Vec<(String, u8)> = Vec::new();
        let mut i: usize = 0;
        while i < targets.len()
            invariant
                i <= targets@.len(),
                ts == target_views(targets@),
                ts == targets_for(issue_packages(report.issues@)),
                manifest_parses(text@),
                fixes_over(text@, ts.take(i as int)) == Some((current@, fixed_views(fixed@))),
            decreases targets@.len() - i,
        {
            proof {
                assert(ts.take(i + 1).drop_last() == ts.take(i as int));
                assert(ts.take(i + 1).last() == ts[i as int]);
                assert(ts[i as int] == (targets@[i as int].0@, targets@[i as int].1, targets@[i as int].2));
            }
            let name = targets[i].0.as_str();
            let entry = match read_entry(current.as_str(), name) {
                Some(e) => e,
                None => {
                    proof {
                        lemma_fixes_none_stays(text@, ts, i as int + 1);
                    }
                    return Err(ApplyError::Reparse);
                },
            };
            let (changed, action) = self.plan_fix(name, targets[i].1, &entry);
            if changed {
                match apply_action(current.as_str(), name, &action) {
                    Some(t2) => {
                        current = t2;
                        let ghost before = fixed@;
                        fixed.push((targets[i].0.clone(), targets[i].2));
                        assert(fixed_views(fixed@) == fixed_views(before).push(
                            (ts[i as int].0, ts[i as int].2),
                        ));
                    },
                    None => {
                        proof {
                            lemma_fixes_none_stays(text@, ts, i as int + 1);
                        }
                        return Err(ApplyError::Reparse);
                    },
                }
            }
            i = i + 1;
        }
        assert(ts.take(i as int) == ts);
        Ok((current, fixed))
    }
}

/// Once the fixes over a prefix fail to come out, so do those over any longer
/// prefix.
proof fn lemma_fixes_none_stays(text: Seq<char>, ts: Seq<(Seq<char>, AlternativeType, u8)>, j: int)
    requires
        0 <= j <= ts.len(),
        fixes_over(text, ts.take(j)) is None,
    ensures
        fixes_over(text, ts) is None,
    decreases ts.len() - j,
{
    if j < ts.len() {
        assert(ts.take(j + 1).drop_last() == ts.take(j));
        lemma_fixes_none_stays(text, ts, j + 1);
    } else {
        assert(ts.take(j) == ts);
    }
}

} // verus!
