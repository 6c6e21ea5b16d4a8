//! How a vendor is: whether its token is good and for how long, and whether it
//! is up.
use crate::models::opt_text;
use crate::text::{concat, is_slash, join, joined, texts, trim_end_slashes, trimmed_end};
use crate::vendor::{TokenProvider, VendorId};
use crate::vendor_toml::{
    HealthCheck, VendorAuth, VendorConfig, VendorFeature, VendorRegistry, NANOS_PER_SEC,
};
use vstd::prelude::*;

verus! {

/// What came of a look whether a vendor is up.
#[derive(Clone, Copy, Debug, PartialEq, Eq, Structural)]
pub enum HealthReply {
    /// It answered with this status, after so long.
    Status { status: u16, latency_ms: u64 },
    /// It took the connection, after so long.
    Connected { latency_ms: u64 },
    /// Nothing came back.
    Silent,
}

/// How a vendor is.
#[derive(Clone, Debug)]
pub struct VendorStatus {
    pub vendor: VendorId,
    pub auth_kind: &'static str,
    pub auth_valid: bool,
    /// How long the token is still good; nothing for a key, which stays good.
    pub token_remaining_secs: Option<u64>,
    pub health_ok: bool,
    pub health_latency_ms: Option<u64>,
}

/// Whether a reply shows that the vendor is up: it took the connection, or
/// answered with a status of success.
pub open spec fn is_healthy(reply: HealthReply) -> bool {
    match reply {
        HealthReply::Status { status, .. } => 200 <= status < 300,
        HealthReply::Connected { .. } => true,
        HealthReply::Silent => false,
    }
}

/// How long the reply took, if one came.
pub open spec fn latency(reply: HealthReply) -> Option<u64> {
    match reply {
        HealthReply::Status { latency_ms, .. } => Some(latency_ms),
        HealthReply::Connected { latency_ms } => Some(latency_ms),
        HealthReply::Silent => None,
    }
}

/// Whether a look at the vendor is asked for.
pub open spec fn is_checked(check: Option<HealthCheck>) -> bool {
    match check {
        Some(HealthCheck::Http { .. }) => true,
        Some(HealthCheck::Tcp) => true,
        _ => false,
    }
}

/// Whole seconds, as many as a number of 64 bits holds.
pub open spec fn whole_secs(nanos: int) -> int {
    let secs = nanos / NANOS_PER_SEC as int;
    if secs <= u64::MAX {
        secs
    } else {
        u64::MAX as int
    }
}

/// The seconds that a token of this vendor is still good; nothing for a key.
pub open spec fn secs_left(auth: VendorAuth, now: u128) -> Option<int> {
    match auth {
        VendorAuth::ApiKey(_) => None,
        VendorAuth::Bearer(p) => Some(whole_secs(p.spec_remaining(now))),
    }
}

/// Whether `status` tells how a vendor is at `now`, with what came of a look at
/// it. A vendor that is not looked at counts as up.
pub open spec fn tells(
    status: VendorStatus,
    vendor: VendorConfig,
    now: u128,
    health: Option<HealthReply>,
) -> bool {
    &&& status.vendor@ == vendor.id@
    &&& status.auth_kind@ == (match vendor.auth {
        VendorAuth::ApiKey(_) => "api_key"@,
        VendorAuth::Bearer(_) => "bearer"@,
    })
    &&& status.auth_valid == (match vendor.auth {
        VendorAuth::ApiKey(_) => true,
        VendorAuth::Bearer(p) => !p.expired(now),
    })
    &&& match (status.token_remaining_secs, secs_left(vendor.auth, now)) {
        (Some(secs), Some(left)) => secs == left,
        (None, None) => true,
        _ => false,
    }
    &&& status.health_ok == (match health {
        Some(reply) => is_healthy(reply),
        None => !is_checked(vendor.health_check),
    })
    &&& status.health_latency_ms == (match health {
        Some(reply) => latency(reply),
        None => None,
    })
}

/// A token that is not good has no time left, and one with time left is good.
pub proof fn time_left_means_good(
    status: VendorStatus,
    vendor: VendorConfig,
    now: u128,
    health: Option<HealthReply>,
)
    requires
        tells(status, vendor, now, health),
    ensures
        status.token_remaining_secs matches Some(secs) && secs > 0 ==> status.auth_valid,
        !status.auth_valid ==> status.token_remaining_secs == Some(0u64),
{
}

/// The word for a feature.
pub open spec fn feature_name(feature: VendorFeature) -> Seq<char> {
    match feature {
        VendorFeature::PromptCaching => "promptcaching"@,
        VendorFeature::ExtendedCacheTtl => "extendedcachettl"@,
        VendorFeature::ToolUse => "tooluse"@,
        VendorFeature::Thinking => "thinking"@,
        VendorFeature::Vision => "vision"@,
        VendorFeature::Stream => "stream"@,
        VendorFeature::Reasoning => "reasoning"@,
    }
}

/// The words for features.
pub open spec fn feature_names(features: Seq<VendorFeature>) -> Seq<Seq<char>> {
    features.map_values(|feature: VendorFeature| feature_name(feature))
}

fn feature_word(feature: VendorFeature) -> (word: &'static str)
    ensures
        word@ == feature_name(feature),
{
    match feature {
        VendorFeature::PromptCaching => "promptcaching",
        VendorFeature::ExtendedCacheTtl => "extendedcachettl",
        VendorFeature::ToolUse => "tooluse",
        VendorFeature::Thinking => "thinking",
        VendorFeature::Vision => "vision",
        VendorFeature::Stream => "stream",
        VendorFeature::Reasoning => "reasoning",
    }
}

impl HealthReply {
    fn good(&self) -> (b: bool)
        ensures
            b == is_healthy(*self),
    {
        match *self {
            HealthReply::Status { status, .. } => 200 <= status && status < 300,
            HealthReply::Connected { .. } => true,
            HealthReply::Silent => false,
        }
    }

    fn took(&self) -> (ms: Option<u64>)
        ensures
            ms == latency(*self),
    {
        match *self {
            HealthReply::Status { latency_ms, .. } => Some(latency_ms),
            HealthReply::Connected { latency_ms } => Some(latency_ms),
            HealthReply::Silent => None,
        }
    }
}

fn to_whole_secs(nanos: u128) -> (secs: u64)
    ensures
        secs == whole_secs(nanos as int),
{
    let secs: u128 = nanos / NANOS_PER_SEC;
    if secs <= u64::MAX as u128 {
        secs as u64
    } else {
        u64::MAX
    }
}

impl VendorConfig {
    /// Where it is asked over HTTP whether the vendor is up, if it is.
    pub fn health_url(&self) -> (url: Option<String>)
        ensures
            opt_text(url) == (match self.health_check {
                Some(HealthCheck::Http { path }) => Some(
                    trimmed_end(self.base_url@, is_slash()) + path@,
                ),
                _ => None,
            }),
    {
        match &self.health_check {
            Some(HealthCheck::Http { path }) => Some(
                concat(trim_end_slashes(self.base_url.as_str()), path.as_str()),
            ),
            _ => None,
        }
    }

    /// How the vendor is at `now`, with what came of a look at it.
    pub fn status(&self, now: u128, health: Option<HealthReply>) -> (status: VendorStatus)
        ensures
            tells(status, *self, now, health),
    {
        let (auth_kind, expired, token_remaining_secs) = match &self.auth {
            VendorAuth::ApiKey(p) => (p.kind(), p.is_expired(now), None),
            VendorAuth::Bearer(p) => (
                p.kind(),
                p.is_expired(now),
                Some(to_whole_secs(p.remaining(now))),
            ),
        };
        let checked = match &self.health_check {
            Some(HealthCheck::Http { .. }) => true,
            Some(HealthCheck::Tcp) => true,
            _ => false,
        };
        VendorStatus {
            vendor: VendorId::new(self.id.as_str()),
            auth_kind,
            auth_valid: !expired,
            token_remaining_secs,
            health_ok: match health {
                Some(reply) => reply.good(),
                None => !checked,
            },
            health_latency_ms: match health {
                Some(reply) => reply.took(),
                None => None,
            },
        }
    }

    /// The features that must not be used, in words; a dash where there are none.
    pub fn disabled_text(&self) -> (text: String)
        ensures
            text@ == (if self.disabled_features@.len() == 0 {
                "-"@
            } else {
                joined(feature_names(self.disabled_features@), ","@)
            }),
    {
        if self.disabled_features.len() == 0 {
            return "-".to_owned();
        }
        let mut words: Vec<String> = Vec::new();
        let mut i: usize = 0;
        while i < self.disabled_features.len()
            invariant
                i <= self.disabled_features@.len(),
                words@.len() == i,
                forall|j: int|
                    0 <= j < i ==> (#[trigger] words@[j])@ == feature_name(
                        self.disabled_features@[j],
                    ),
            decreases self.disabled_features@.len() - i,
        {
            words.push(feature_word(self.disabled_features[i]).to_owned());
            i = i + 1;
        }
        assert(texts(words@) =~= feature_names(self.disabled_features@));
        join(words.as_slice(), ",")
    }
}

impl VendorRegistry {
    /// How a vendor is at `now`, with what came of a look at it.
    pub fn status(&self, id: &VendorId, now: u128, health: Option<HealthReply>) -> (status: Option<
        VendorStatus,
    >)
        requires
            self.wf(),
        ensures
            match status {
                Some(status) => self@.contains_key(id@) && tells(status, self@[id@], now, health),
                None => !self@.contains_key(id@),
            },
    {
        match self.get(id) {
            Some(vendor) => Some(vendor.status(now, health)),
            None => None,
        }
    }
}

} // verus!
