//! Uploading finished segments: the retry policy, and the settings of the
//! object store they go to.
//!
//! Each segment gets up to ten attempts. After a failed attempt the worker
//! waits before the next one, one second at first and twice as long each
//! time, at most thirty seconds. After the tenth failure the segment is
//! dropped: it stays on local disk and in the index.

use vstd::prelude::*;

verus! {

/// The most attempts a segment's upload gets.
pub const MAX_UPLOAD_ATTEMPTS: u32 = 10;

/// The wait after the first failed attempt, in milliseconds.
pub const FIRST_BACKOFF_MS: u64 = 1000;

/// The longest wait between two attempts, in milliseconds.
pub const MAX_BACKOFF_MS: u64 = 30_000;

/// Where a segment's upload stands.
#[derive(Clone, Copy, Debug, PartialEq, Eq, Structural)]
pub enum UploadStatus {
    /// Another attempt is due.
    Pending,
    /// An attempt succeeded; no more are made.
    Delivered,
    /// Every attempt failed; the segment is given up.
    Dropped,
}

/// What the worker does after an attempt.
#[derive(Clone, Copy, Debug, PartialEq, Eq, Structural)]
pub enum UploadStep {
    /// The segment is stored; stop.
    Delivered,
    /// Wait this long, then attempt again.
    RetryAfter { delay_ms: u64 },
    /// Give the segment up; stop.
    Dropped,
}

/// The retry state of one segment's upload.
#[derive(Clone, Copy, Debug, PartialEq, Eq, Structural)]
pub struct UploadRetry {
    /// Attempts made so far.
    pub attempts: u32,
    pub status: UploadStatus,
}

/// The wait after `failures` failed attempts: one second, doubled for each
/// further failure, capped at thirty seconds.
pub open spec fn backoff_spec(failures: nat) -> nat
    decreases failures,
{
    if failures <= 1 {
        FIRST_BACKOFF_MS as nat
    } else {
        let previous = backoff_spec((failures - 1) as nat);
        if 2 * previous > MAX_BACKOFF_MS {
            MAX_BACKOFF_MS as nat
        } else {
            2 * previous
        }
    }
}

/// The state before any attempt.
pub open spec fn retry_initial() -> UploadRetry {
    UploadRetry { attempts: 0, status: UploadStatus::Pending }
}

/// The state after an attempt that succeeded or not. Once delivered or
/// dropped, nothing changes.
pub open spec fn retry_step(s: UploadRetry, succeeded: bool) -> UploadRetry {
    if s.status != UploadStatus::Pending {
        s
    } else if succeeded {
        UploadRetry { attempts: (s.attempts + 1) as u32, status: UploadStatus::Delivered }
    } else if s.attempts + 1 >= MAX_UPLOAD_ATTEMPTS {
        UploadRetry { attempts: (s.attempts + 1) as u32, status: UploadStatus::Dropped }
    } else {
        UploadRetry { attempts: (s.attempts + 1) as u32, status: UploadStatus::Pending }
    }
}

/// What the worker is told to do in state `s`.
pub open spec fn step_of(s: UploadRetry) -> UploadStep {
    match s.status {
        UploadStatus::Delivered => UploadStep::Delivered,
        UploadStatus::Dropped => UploadStep::Dropped,
        UploadStatus::Pending => UploadStep::RetryAfter { delay_ms: backoff_spec(s.attempts as nat) as u64 },
    }
}

/// The state after the attempts whose results are `outcomes`, in order.
/// Results that come after the upload has ended change nothing.
pub open spec fn retry_run(outcomes: Seq<bool>) -> UploadRetry
    decreases outcomes.len(),
{
    if outcomes.len() == 0 {
        retry_initial()
    } else {
        retry_step(retry_run(outcomes.drop_last()), outcomes.last())
    }
}

/// How many payloads reach the store: attempts made while the upload was
/// still pending that succeeded.
pub open spec fn deliveries(outcomes: Seq<bool>) -> nat
    decreases outcomes.len(),
{
    if outcomes.len() == 0 {
        0
    } else {
        let before = retry_run(outcomes.drop_last());
        deliveries(outcomes.drop_last()) + if outcomes.last() && before.status == UploadStatus::Pending {
            1nat
        } else {
            0nat
        }
    }
}

/// Whether one of the first ten attempts succeeds.
pub open spec fn succeeds_in_time(outcomes: Seq<bool>) -> bool {
    exists|i: int| 0 <= i < outcomes.len() && i < MAX_UPLOAD_ATTEMPTS && #[trigger] outcomes[i]
}

/// Whether the first ten attempts are all made and all fail.
pub open spec fn fails_every_time(outcomes: Seq<bool>) -> bool {
    outcomes.len() >= MAX_UPLOAD_ATTEMPTS && forall|i: int|
        0 <= i < MAX_UPLOAD_ATTEMPTS ==> !#[trigger] outcomes[i]
}

impl UploadRetry {
    /// The attempt count agrees with the status: at most ten attempts, and
    /// fewer while another is due.
    pub open spec fn wf(&self) -> bool {
        &&& self.attempts <= MAX_UPLOAD_ATTEMPTS
        &&& self.status == UploadStatus::Pending ==> self.attempts < MAX_UPLOAD_ATTEMPTS
    }

    /// No attempt made yet.
    pub fn new() -> (r: UploadRetry)
        ensures
            r == retry_initial(),
            r.wf(),
    {
        UploadRetry { attempts: 0, status: UploadStatus::Pending }
    }

    /// Records the result of the attempt just made and says what to do next.
    pub fn record(&mut self, succeeded: bool) -> (r: UploadStep)
        requires
            old(self).wf(),
            old(self).status == UploadStatus::Pending,
        ensures
            *final(self) == retry_step(*old(self), succeeded),
            final(self).wf(),
            r == step_of(*final(self)),
    {
        self.attempts = self.attempts + 1;
        if succeeded {
            self.status = UploadStatus::Delivered;
            UploadStep::Delivered
        } else if self.attempts >= MAX_UPLOAD_ATTEMPTS {
            self.status = UploadStatus::Dropped;
            UploadStep::Dropped
        } else {
            UploadStep::RetryAfter { delay_ms: backoff_ms(self.attempts) }
        }
    }
}

/// The wait after `failures` failed attempts, in milliseconds.
pub fn backoff_ms(failures: u32) -> (r: u64)
    ensures
        r == backoff_spec(failures as nat),
        r <= MAX_BACKOFF_MS,
{
    let mut delay: u64 = FIRST_BACKOFF_MS;
    let mut k: u32 = 1;
    while k < failures && delay < MAX_BACKOFF_MS
        invariant
            1 <= k,
            k <= failures || k == 1,
            delay == backoff_spec(k as nat),
            delay <= MAX_BACKOFF_MS,
        decreases failures - k,
    {
        k = k + 1;
        if 2 * delay > MAX_BACKOFF_MS {
            delay = MAX_BACKOFF_MS;
        } else {
            delay = 2 * delay;
        }
    }
    assert(failures <= 1 ==> backoff_spec(failures as nat) == backoff_spec(1));
    proof {
        if k < failures {
            lemma_backoff_stays_capped(k as nat, failures as nat);
        }
    }
    delay
}

/// Once the wait reaches thirty seconds it stays there.
proof fn lemma_backoff_stays_capped(k: nat, n: nat)
    requires
        1 <= k <= n,
        backoff_spec(k) == MAX_BACKOFF_MS,
    ensures
        backoff_spec(n) == MAX_BACKOFF_MS,
    decreases n - k,
{
    if k < n {
        lemma_backoff_stays_capped(k, (n - 1) as nat);
    }
}

/// The retry policy's law, for any results of the attempts: the upload is
/// delivered exactly when one of the first ten attempts succeeds, and then
/// exactly one payload reaches the store; it is dropped exactly when the
/// first ten attempts all fail, and then none does; no more than ten attempts
/// are ever made.
pub proof fn lemma_upload_retry(outcomes: Seq<bool>)
    ensures
        retry_run(outcomes).wf(),
        retry_run(outcomes).status == UploadStatus::Delivered <==> succeeds_in_time(outcomes),
        retry_run(outcomes).status == UploadStatus::Dropped <==> fails_every_time(outcomes),
        deliveries(outcomes) == if retry_run(outcomes).status == UploadStatus::Delivered {
            1nat
        } else {
            0nat
        },
        retry_run(outcomes).status == UploadStatus::Pending ==> retry_run(outcomes).attempts
            == outcomes.len(),
    decreases outcomes.len(),
{
    if outcomes.len() > 0 {
        let rest = outcomes.drop_last();
        lemma_upload_retry(rest);
        let last = outcomes.len() - 1;
        assert(outcomes[last] == outcomes.last());
        assert forall|i: int| 0 <= i < rest.len() implies rest[i] == outcomes[i] by {}
        if succeeds_in_time(rest) {
            let i = choose|i: int| 0 <= i < rest.len() && i < MAX_UPLOAD_ATTEMPTS && #[trigger] rest[i];
            assert(outcomes[i]);
        }
        if succeeds_in_time(outcomes) && !succeeds_in_time(rest) {
            let i = choose|i: int|
                0 <= i < outcomes.len() && i < MAX_UPLOAD_ATTEMPTS && #[trigger] outcomes[i];
            if i < rest.len() {
                assert(rest[i]);
            }
        }
        if fails_every_time(rest) {
            assert forall|i: int| 0 <= i < MAX_UPLOAD_ATTEMPTS implies !#[trigger] outcomes[i] by {
                assert(!rest[i]);
            }
        }
        if fails_every_time(outcomes) && rest.len() >= MAX_UPLOAD_ATTEMPTS {
            assert forall|i: int| 0 <= i < MAX_UPLOAD_ATTEMPTS implies !#[trigger] rest[i] by {
                assert(!outcomes[i]);
            }
        }
        if retry_run(rest).status == UploadStatus::Pending {
            assert(!succeeds_in_time(rest));
            if !outcomes.last() && rest.len() + 1 >= MAX_UPLOAD_ATTEMPTS {
                assert forall|i: int| 0 <= i < MAX_UPLOAD_ATTEMPTS implies !#[trigger] outcomes[i] by {
                    if i < rest.len() {
                        if outcomes[i] {
                            assert(rest[i]);
                        }
                    }
                }
            }
        }
    } else {
        assert(!succeeds_in_time(outcomes));
    }
}

/// The settings of an S3 object store: the bucket, and the credentials that
/// reach it.
pub struct S3UploaderConfig {
    pub bucket: String,
    pub access_key_id: String,
    pub secret_access_key: String,
}

} // verus!
