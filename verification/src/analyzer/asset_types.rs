//! Kinds of embedded assets and the priority of externalizing them.
use vstd::prelude::*;

verus! {

/// Type of detected asset.
#[derive(Debug, Clone, Copy, PartialEq, Eq, Structural)]
pub enum AssetType {
    /// Font file (TTF, OTF, WOFF, etc.).
    Font,
    /// Image file (PNG, JPG, SVG, etc.).
    Image,
    /// Generic data file.
    Data,
    /// Unknown or unrecognized asset type.
    Unknown,
}

/// Priority of externalizing an asset, from lowest to highest.
#[derive(Debug, Clone, Copy, PartialEq, Eq, Structural, PartialOrd, Ord, Hash)]
pub enum AssetPriority {
    /// At most 2% of the bundle and at most 100 KB.
    Low,
    /// Above 2% of the bundle or above 100 KB.
    Medium,
    /// Above 5% of the bundle or above 200 KB.
    High,
    /// Above 10% of the bundle or above 500 KB.
    Critical,
}

/// `asset_kb` is more than `percent`% of `bundle_kb` (never for an empty bundle).
pub open spec fn above_percent(asset_kb: u64, bundle_kb: u64, percent: u64) -> bool {
    bundle_kb > 0 && asset_kb * 100 > percent * bundle_kb
}

/// The priority of an asset of `asset_kb` KB in a bundle of `bundle_kb` KB:
/// critical above 10% or 500 KB, high above 5% or 200 KB, medium above 2% or
/// 100 KB, low otherwise.
pub open spec fn priority_for(asset_kb: u64, bundle_kb: u64) -> AssetPriority {
    if above_percent(asset_kb, bundle_kb, 10) || asset_kb > 500 {
        AssetPriority::Critical
    } else if above_percent(asset_kb, bundle_kb, 5) || asset_kb > 200 {
        AssetPriority::High
    } else if above_percent(asset_kb, bundle_kb, 2) || asset_kb > 100 {
        AssetPriority::Medium
    } else {
        AssetPriority::Low
    }
}

/// Whether `asset_kb` is more than `percent`% of `bundle_kb`.
fn above_percent_exec(asset_kb: u64, bundle_kb: u64, percent: u64) -> (b: bool)
    requires
        percent <= 100,
    ensures
        b == above_percent(asset_kb, bundle_kb, percent),
{
    let a = asset_kb as u128;
    let b = bundle_kb as u128;
    let p = percent as u128;
    assert(p * b <= 100 * 0x1_0000_0000_0000_0000) by (nonlinear_arith)
        requires
            p <= 100,
            b < 0x1_0000_0000_0000_0000,
    ;
    bundle_kb > 0 && a * 100 > p * b
}

impl AssetPriority {
    /// Critical share of the bundle, in percent.
    pub const CRITICAL_PERCENTAGE: u64 = 10;
    /// Critical size threshold in KB.
    pub const CRITICAL_SIZE_KB: u64 = 500;
    /// High share of the bundle, in percent.
    pub const HIGH_PERCENTAGE: u64 = 5;
    /// High size threshold in KB.
    pub const HIGH_SIZE_KB: u64 = 200;
    /// Medium share of the bundle, in percent.
    pub const MEDIUM_PERCENTAGE: u64 = 2;
    /// Medium size threshold in KB.
    pub const MEDIUM_SIZE_KB: u64 = 100;

    /// The priority of an asset by its share of the bundle or its absolute size.
    ///
    /// A 600 KB asset is critical in any bundle; 120 KB of a 1000 KB bundle
    /// (12%) is critical too, and 60 KB of it (6%) is high.
    pub fn from_size(asset_kb: u64, bundle_kb: u64) -> (r: Self)
        ensures
            r == priority_for(asset_kb, bundle_kb),
    {
        if above_percent_exec(asset_kb, bundle_kb, Self::CRITICAL_PERCENTAGE) || asset_kb
            > Self::CRITICAL_SIZE_KB {
            AssetPriority::Critical
        } else if above_percent_exec(asset_kb, bundle_kb, Self::HIGH_PERCENTAGE) || asset_kb
            > Self::HIGH_SIZE_KB {
            AssetPriority::High
        } else if above_percent_exec(asset_kb, bundle_kb, Self::MEDIUM_PERCENTAGE) || asset_kb
            > Self::MEDIUM_SIZE_KB {
            AssetPriority::Medium
        } else {
            AssetPriority::Low
        }
    }
}

/// A larger asset in the same bundle never gets a lower priority.
pub proof fn lemma_priority_monotonic(smaller_kb: u64, larger_kb: u64, bundle_kb: u64)
    requires
        smaller_kb <= larger_kb,
    ensures
        priority_rank(priority_for(smaller_kb, bundle_kb)) <= priority_rank(
            priority_for(larger_kb, bundle_kb),
        ),
{
    assert(smaller_kb * 100 <= larger_kb * 100) by (nonlinear_arith)
        requires
            smaller_kb <= larger_kb,
    ;
}

/// An asset larger than the (non-empty) bundle it sits in is critical.
pub proof fn lemma_oversized_asset_critical(asset_kb: u64, bundle_kb: u64)
    requires
        0 < bundle_kb < asset_kb,
    ensures
        priority_for(asset_kb, bundle_kb) == AssetPriority::Critical,
{
    assert(asset_kb * 100 > 10 * bundle_kb) by (nonlinear_arith)
        requires
            0 < bundle_kb < asset_kb,
    ;
}

/// The rank of a priority, from 0 (low) to 3 (critical).
pub open spec fn priority_rank(p: AssetPriority) -> int {
    match p {
        AssetPriority::Low => 0,
        AssetPriority::Medium => 1,
        AssetPriority::High => 2,
        AssetPriority::Critical => 3,
    }
}

/// A detected embedded asset.
#[derive(Debug, Clone)]
pub struct DetectedAsset {
    /// Path of the asset, as written in the source (relative to the source file).
    pub file_path: String,
    /// Size in bytes.
    pub size_bytes: u64,
    /// Type of asset.
    pub asset_type: AssetType,
    /// Where it was detected (`file:line`).
    pub source_location: String,
    /// How it was detected (`include_bytes!`, `include_str!`).
    pub detection_method: String,
}

/// The value of a `DetectedAsset`.
pub struct AssetView {
    pub file_path: Seq<char>,
    pub size_bytes: u64,
    pub asset_type: AssetType,
    pub source_location: Seq<char>,
    pub detection_method: Seq<char>,
}

impl View for DetectedAsset {
    type V = AssetView;

    open spec fn view(&self) -> AssetView {
        AssetView {
            file_path: self.file_path@,
            size_bytes: self.size_bytes,
            asset_type: self.asset_type,
            source_location: self.source_location@,
            detection_method: self.detection_method@,
        }
    }
}

impl DetectedAsset {
    /// A copy of the asset.
    pub fn duplicate(&self) -> (r: Self)
        ensures
            r@ == self@,
    {
        DetectedAsset {
            file_path: self.file_path.clone(),
            size_bytes: self.size_bytes,
            asset_type: self.asset_type,
            source_location: self.source_location.clone(),
            detection_method: self.detection_method.clone(),
        }
    }
}

/// The priority of an asset follows its size and its share of a non-empty
/// bundle: it is critical exactly when it is above 500 KB or more than 10% of
/// the bundle; at least high exactly when above 200 KB or more than 5%; at
/// least medium exactly when above 100 KB or more than 2%. With no bundle
/// size known, only the asset's own size counts.
pub proof fn lemma_priority_thresholds(asset_kb: u64, bundle_kb: u64)
    ensures
        (priority_for(asset_kb, bundle_kb) == AssetPriority::Critical) <==> (asset_kb > 500 || (
        bundle_kb > 0 && asset_kb * 100 > 10 * bundle_kb)),
        (priority_rank(priority_for(asset_kb, bundle_kb)) >= 2) <==> (asset_kb > 200 || (bundle_kb
            > 0 && asset_kb * 100 > 5 * bundle_kb)),
        (priority_rank(priority_for(asset_kb, bundle_kb)) >= 1) <==> (asset_kb > 100 || (bundle_kb
            > 0 && asset_kb * 100 > 2 * bundle_kb)),
{
}

/// An asset of more than 5% of a non-empty bundle, but at most 10% of it and
/// at most 500 KB, has high priority (e.g. 60 KB of a 1000 KB bundle).
pub proof fn lemma_share_above_five_percent_high(asset_kb: u64, bundle_kb: u64)
    requires
        bundle_kb > 0,
        asset_kb * 100 > 5 * bundle_kb,
        asset_kb * 100 <= 10 * bundle_kb,
        asset_kb <= 500,
    ensures
        priority_for(asset_kb, bundle_kb) == AssetPriority::High,
{
    lemma_priority_thresholds(asset_kb, bundle_kb);
}

} // verus!
