//! Download orchestration: the decision core that makes fetching idempotent.
//! The mere existence of a destination path counts as proof of prior
//! successful completion; the transport itself lives outside the library and
//! performs exactly one request per `Fetched` outcome, none per `Skipped`.

use vstd::prelude::*;

verus! {

/// What `ensure_fetched` decided: `Fetched` asks the caller to perform the
/// one network request and write the file; `Skipped` means the work was
/// already done and nothing is to be performed.
#[derive(Clone, Copy, Debug, PartialEq, Eq, Structural)]
pub enum FetchOutcome {
    Fetched,
    Skipped,
}

/// Tracks which destination paths are known to be present, seeded by the
/// caller's own existence checks and grown by every decision taken.
pub struct Orchestrator {
    paths_present: Vec<String>,
}

/// The transition `ensure_fetched` makes: from the known-present paths `pre`,
/// asked about `p` which the caller reports as `on_disk`, it moves to
/// `post` with outcome `out`. The work is skipped exactly when something —
/// the record or the disk — shows it already done, and `p` is known present
/// afterwards either way.
pub open spec fn spec_ensure_step(
    pre: Seq<Seq<char>>,
    p: Seq<char>,
    on_disk: bool,
    post: Seq<Seq<char>>,
    out: FetchOutcome,
) -> bool {
    &&& (out is Skipped <==> on_disk || pre.contains(p))
    &&& post == if pre.contains(p) {
        pre
    } else {
        pre.push(p)
    }
}

impl Orchestrator {
    /// The paths this orchestrator knows to be present.
    pub closed spec fn present(&self) -> Seq<Seq<char>> {
        self.paths_present@.map_values(|s: String| s@)
    }

    /// An orchestrator that knows nothing to be present yet.
    pub fn new() -> (r: Self)
        ensures
            r.present() == Seq::<Seq<char>>::empty(),
    {
        let r = Orchestrator { paths_present: Vec::new() };
        proof {
            assert(r.present() =~= Seq::<Seq<char>>::empty());
        }
        r
    }

    /// Decides whether `path` must still be downloaded. `exists_on_disk` is
    /// the caller's report of whether the destination already exists; either
    /// form of evidence of prior completion short-circuits to `Skipped`
    /// without re-validating content.
    pub fn ensure_fetched(&mut self, path: &String, exists_on_disk: bool) -> (out: FetchOutcome)
        ensures
            spec_ensure_step(old(self).present(), path@, exists_on_disk, final(self).present(), out),
    {
        let ghost pre = self.present();
        let mut i: usize = 0;
        while i < self.paths_present.len()
            invariant
                i <= self.paths_present@.len(),
                pre == self.present(),
                forall|k: int| 0 <= k < i ==> pre[k] != path@,
            decreases self.paths_present@.len() - i,
        {
            if self.paths_present[i].eq(path) {
                proof {
                    assert(pre[i as int] == path@);
                    assert(pre.contains(path@));
                }
                return FetchOutcome::Skipped;
            }
            i = i + 1;
        }
        proof {
            assert(!pre.contains(path@));
        }
        self.paths_present.push(path.clone());
        proof {
            assert(self.present() =~= pre.push(path@));
        }
        if exists_on_disk {
            FetchOutcome::Skipped
        } else {
            FetchOutcome::Fetched
        }
    }
}

/// Law: `ensure_fetched` is idempotent. However a first decision about a
/// path came out, a second decision about the same path is a no-op: it
/// returns `Skipped`, changes nothing, and so asks for no network request.
/// When the path was neither recorded nor on disk, the first decision alone
/// asked for the single request.
pub proof fn lemma_ensure_fetched_idempotent(
    s0: Seq<Seq<char>>,
    p: Seq<char>,
    exists1: bool,
    s1: Seq<Seq<char>>,
    out1: FetchOutcome,
    exists2: bool,
    s2: Seq<Seq<char>>,
    out2: FetchOutcome,
)
    requires
        spec_ensure_step(s0, p, exists1, s1, out1),
        spec_ensure_step(s1, p, exists2, s2, out2),
    ensures
        out2 is Skipped,
        s2 == s1,
        !exists1 && !s0.contains(p) ==> out1 is Fetched,
{
    if !s0.contains(p) {
        assert(s1 == s0.push(p));
        assert(s1[s0.len() as int] == p);
        assert(s1.contains(p));
    }
}

} // verus!
