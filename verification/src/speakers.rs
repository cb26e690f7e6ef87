//! Cross-session speaker identities: the stored record, the in-memory
//! store used where no database is wired in, and the decisions taken for
//! each in-session speaker cluster when a session closes. Embedding
//! distances are computed by the caller; the decisions here take the
//! comparison's outcome.

use vstd::prelude::*;

use crate::text::{dec, push_decimal};

verus! {

/// One stored speaker identity.
#[derive(Debug, Clone)]
pub struct SpeakerIdentity {
    pub id: i64,
    pub display_name: Option<String>,
    pub utterance_count: i64,
    pub confidence_state: String,
    pub created_at: String,
    pub updated_at: String,
}

/// Store that keeps nothing: every write succeeds, every read is empty.
#[derive(Debug, Clone, Copy, Default)]
pub struct MemSpeakerStore;

/// Clusters with fewer utterances than this are too noisy to match
/// across sessions.
pub const MIN_UTTERANCE_COUNT_FOR_MATCH: usize = 5;

/// Whether a cluster has enough utterances to be matched.
pub fn cluster_eligible(utterance_count: usize) -> (r: bool)
    ensures
        r == (utterance_count >= MIN_UTTERANCE_COUNT_FOR_MATCH),
{
    utterance_count >= MIN_UTTERANCE_COUNT_FOR_MATCH
}

/// The utterance label of an in-session cluster: `Speaker N`, counting
/// from one.
pub open spec fn cluster_label_spec(cluster_id: nat) -> Seq<char> {
    "Speaker "@ + dec(cluster_id + 1)
}

/// Renders the utterance label of cluster `cluster_id`.
pub fn cluster_speaker_label(cluster_id: usize) -> (r: String)
    requires
        cluster_id < u64::MAX,
    ensures
        r@ == cluster_label_spec(cluster_id as nat),
{
    let mut s = "Speaker ".to_owned();
    push_decimal(&mut s, (cluster_id as u64) + 1);
    s
}

/// What to do with one eligible cluster.
#[derive(Debug, Clone, Copy, PartialEq, Eq, Structural)]
pub enum IdentityAction {
    /// Merge into the known identity `id`, whose stored count becomes
    /// `total_count`.
    UpdateExisting { id: i64, total_count: i64 },
    /// Create a new provisional identity.
    CreateNew,
}

/// Decides a cluster's identity from the closest known identity, if any:
/// `best` is that identity's id, its stored utterance count, and whether
/// its distance is under the auto-accept threshold. An accepted match is
/// merged (counts add up); otherwise a new identity is created.
pub fn decide_identity(best: Option<(i64, i64, bool)>, cluster_utterances: i64) -> (r: IdentityAction)
    requires
        best matches Some((_, known, true)) ==> known + cluster_utterances <= i64::MAX && known
            + cluster_utterances >= i64::MIN,
    ensures
        r == (match best {
            Some((id, known, true)) => IdentityAction::UpdateExisting {
                id,
                total_count: (known + cluster_utterances) as i64,
            },
            _ => IdentityAction::CreateNew,
        }),
{
    match best {
        Some((id, known, accepted)) => {
            if accepted {
                IdentityAction::UpdateExisting { id, total_count: known + cluster_utterances }
            } else {
                IdentityAction::CreateNew
            }
        },
        None => IdentityAction::CreateNew,
    }
}

} // verus!
