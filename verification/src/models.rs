//! Catalog, analysis and recommendation vocabulary shared by the services.
use vstd::prelude::*;

verus! {

#[derive(Debug, Clone, PartialEq, Eq)]
pub enum PublicCatalogStatus {
    Empty,
    Ready,
    Updating,
    Unavailable,
}

#[derive(Debug, Clone, PartialEq, Eq)]
pub enum ServiceCapability {
    PublicCatalogRead,
}

#[derive(Debug, Clone, PartialEq, Eq)]
pub struct ServiceInfo {
    pub service_instance_id: String,
    pub service_name: String,
    pub service_version: String,
    pub api_version: String,
    pub public_catalog_status: PublicCatalogStatus,
    pub capabilities: Vec<ServiceCapability>,
}

#[derive(Debug, Clone, Copy, PartialEq, Eq, Structural)]
pub enum StoreReleaseState {
    Upcoming,
    Released,
    Tba,
    Unknown,
}

impl Default for StoreReleaseState {
    /// A release state not yet known.
    fn default() -> (r: Self)
        ensures
            r == StoreReleaseState::Unknown,
    {
        StoreReleaseState::Unknown
    }
}

#[derive(Debug, Clone, Default)]
pub struct UserGameState {
    pub favorite: bool,
    pub wishlist: bool,
    pub followed: bool,
    pub viewed: bool,
    pub updated_at: Option<String>,
}

#[derive(Debug, Clone)]
pub struct AiRecommendationMessage {
    pub role: String,
    pub content: String,
}

#[derive(Debug, Clone)]
pub struct AiRecommendationRequest {
    pub prompt: String,
    pub context_messages: Vec<AiRecommendationMessage>,
    pub limit: Option<usize>,
}

#[derive(Debug, Clone, Copy, PartialEq, Eq, Structural)]
pub enum AnalysisSource {
    Hybrid,
    Rule,
}

#[derive(Debug, Clone, Copy, PartialEq, Eq, Structural)]
pub enum AnalysisConfidence {
    High,
    Medium,
    Low,
}

#[derive(Debug, Clone, Copy, PartialEq, Eq, Structural)]
pub enum AnalysisEvidenceKind {
    PositiveReviewPct,
    TotalReviews,
    CurrentPlayers,
    Tags,
    MultiplayerModes,
    ShortDescription,
    ReviewSnippet,
}

#[derive(Debug, Clone, Copy, PartialEq, Eq, Structural)]
pub enum AnalysisReviewStance {
    Strength,
    Risk,
}

#[derive(Debug, Clone, Copy, PartialEq, Eq, Structural)]
pub enum RecommendationPool {
    NewRelease,
    Evergreen,
    HiddenGem,
    FriendsParty,
    DemoPotential,
}

impl Default for RecommendationPool {
    /// Reports written before pools existed are evergreen.
    fn default() -> (r: Self)
        ensures
            r == RecommendationPool::Evergreen,
    {
        RecommendationPool::Evergreen
    }
}

#[derive(Debug, Clone)]
pub struct AnalysisPoint {
    pub title: String,
    pub reason: String,
}

#[derive(Debug, Clone)]
pub struct AnalysisEvidenceItem {
    pub kind: AnalysisEvidenceKind,
    pub label: String,
    pub value: String,
    pub interpretation: String,
}

#[derive(Debug, Clone)]
pub struct AnalysisReviewEvidenceItem {
    pub stance: AnalysisReviewStance,
    pub quote: String,
    pub playtime_text: String,
    pub interpretation: String,
}

/// The score version of analysis reports stored before versions were recorded.
pub fn default_score_version() -> (r: String)
    ensures
        r@ == "v1_compat"@,
{
    crate::text::owned("v1_compat")
}

/// Whether a store entry is a demo, one with a demo, or a plain release.
#[derive(Debug, Clone, Copy, PartialEq, Eq, Structural)]
pub enum DemoStatus {
    DemoOnly,
    ReleasedWithDemo,
    Released,
    Unknown,
}

impl DemoStatus {
    /// A demo app is demo-only; otherwise a game with a demo is released with
    /// one, and any other game is released.
    pub fn from_parts(is_demo_app: bool, has_demo: bool) -> (r: Self)
        ensures
            r == if is_demo_app {
                DemoStatus::DemoOnly
            } else if has_demo {
                DemoStatus::ReleasedWithDemo
            } else {
                DemoStatus::Released
            },
    {
        if is_demo_app {
            DemoStatus::DemoOnly
        } else if has_demo {
            DemoStatus::ReleasedWithDemo
        } else {
            DemoStatus::Released
        }
    }
}

#[derive(Debug, Clone, Copy, PartialEq, Eq, Structural)]
pub enum ReleaseBucket {
    New,
    Classic,
    ClassicHidden,
}

} // verus!
