//! The title-graph resolver: a step machine that drives the two-tier walk —
//! fetch the root container, extract and decode it, then for each meta record
//! in table order fetch, extract and decode that title, and fetch each of its
//! content files. The machine only decides; the caller performs each returned
//! action in the outside world and reports how it went.

use crate::codec::{
    classify_meta_type, content_views, decode, spec_classify, spec_contents, spec_decode_error,
    spec_header_at, spec_metas, ContentRecord, DecodeError, MetaRecord, MetaType,
};
use crate::locator::{
    content_path, content_url, extract_dir, payload_path, root_container_path, root_container_url,
    spec_content_path, spec_content_url, spec_extract_dir, spec_payload_path,
    spec_root_container_path, spec_root_container_url, spec_title_container_path,
    spec_title_container_url, title_container_path, title_container_url, ROOT_TITLE_ID,
};
use vstd::prelude::*;

verus! {

/// What a resolver is configured with: the endpoint base, the device
/// identifier the per-title endpoint wants, and the firmware version (its
/// numeric form for the URL, its label for the directory).
pub struct ResolverConfig {
    pub base_url: String,
    pub device_id: String,
    pub version_num: u64,
    pub version_label: String,
}

/// What the caller is asked to do next.
#[derive(Debug)]
pub enum Action {
    /// Ensure `url` has been downloaded to `path` (idempotently).
    Fetch { path: String, url: String },
    /// Run the external extractor on `container`, unpacking into `out_dir`.
    Extract { container: String, out_dir: String },
    /// Read the metadata payload file at `path` and hand its bytes back.
    Read { path: String },
    /// The walk is complete; nothing further will be asked.
    Finished,
    /// The walk failed; `error` carries the decode error when the buffer was
    /// at fault, and nothing when the outside world reported the failure.
    Aborted { error: Option<DecodeError> },
}

/// How the previous action went.
#[derive(Debug)]
pub enum Event {
    /// The fetch or extract action completed.
    Done,
    /// The read action produced these bytes.
    Payload(Vec<u8>),
    /// The action failed in the outside world.
    Failed,
}

/// What the machine is waiting on.
#[derive(Clone, Copy, Debug, PartialEq, Eq, Structural)]
pub enum Phase {
    Start,
    RootFetch,
    RootExtract,
    RootRead,
    TitleFetch,
    TitleExtract,
    TitleRead,
    ContentFetch,
    Done,
    Failed,
}

/// The walk's state: the titles discovered at the root (in visit order, each
/// with its classified type), the current title, the current title's content
/// table, and the current content file.
pub struct Resolver {
    pub config: ResolverConfig,
    pub phase: Phase,
    pub titles: Vec<(MetaRecord, MetaType)>,
    pub t_idx: usize,
    pub contents: Vec<ContentRecord>,
    pub c_idx: usize,
}

// ---------------------------------------------------------------------------
// Visit order: first occurrence of each title id, in table order
// ---------------------------------------------------------------------------

/// Whether some record in `ms` carries `id`.
pub open spec fn spec_has_id(ms: Seq<MetaRecord>, id: u64) -> bool {
    exists|i: int| 0 <= i < ms.len() && ms[i].title_id == id
}

/// `ms` with every repeated title id dropped: the first occurrence of each id
/// stays, in order. This is the order the resolver visits titles in.
pub open spec fn spec_dedup_by_id(ms: Seq<MetaRecord>) -> Seq<MetaRecord>
    decreases ms.len(),
{
    if ms.len() == 0 {
        Seq::empty()
    } else if spec_has_id(ms.drop_last(), ms.last().title_id) {
        spec_dedup_by_id(ms.drop_last())
    } else {
        spec_dedup_by_id(ms.drop_last()).push(ms.last())
    }
}

/// The meta records a title list was built from.
pub open spec fn spec_title_metas(ts: Seq<(MetaRecord, MetaType)>) -> Seq<MetaRecord> {
    ts.map_values(|p: (MetaRecord, MetaType)| p.0)
}

/// The first unclassifiable type byte in `ms`, scanning in table order.
pub open spec fn spec_first_unknown(ms: Seq<MetaRecord>) -> Option<u8>
    decreases ms.len(),
{
    if ms.len() == 0 {
        None
    } else if spec_classify(ms[0].ty) is None {
        Some(ms[0].ty)
    } else {
        spec_first_unknown(ms.drop_first())
    }
}

/// The decode error a meta table's classification scan reports, if any.
pub open spec fn spec_meta_scan_error(ms: Seq<MetaRecord>) -> Option<DecodeError> {
    match spec_first_unknown(ms) {
        Some(b) => Some(DecodeError::UnknownType(b)),
        None => None,
    }
}

proof fn lemma_first_unknown_at(ms: Seq<MetaRecord>, i: int)
    requires
        0 <= i < ms.len(),
        forall|j: int| 0 <= j < i ==> spec_classify(ms[j].ty) is Some,
        spec_classify(ms[i].ty) is None,
    ensures
        spec_first_unknown(ms) == Some(ms[i].ty),
    decreases i,
{
    if i > 0 {
        lemma_first_unknown_at(ms.drop_first(), i - 1);
    }
}

proof fn lemma_first_unknown_none(ms: Seq<MetaRecord>)
    requires
        forall|j: int| 0 <= j < ms.len() ==> spec_classify(ms[j].ty) is Some,
    ensures
        spec_first_unknown(ms) is None,
    decreases ms.len(),
{
    if ms.len() > 0 {
        lemma_first_unknown_none(ms.drop_first());
    }
}

/// Law: the visit order is the table order. A meta table with pairwise
/// distinct title ids is visited exactly as it stands — no reordering, no
/// drops; repeats alone are dropped, each after its first occurrence.
pub proof fn lemma_traversal_order(ms: Seq<MetaRecord>)
    requires
        forall|i: int, j: int| 0 <= i < j < ms.len() ==> ms[i].title_id != ms[j].title_id,
    ensures
        spec_dedup_by_id(ms) == ms,
    decreases ms.len(),
{
    if ms.len() > 0 {
        lemma_traversal_order(ms.drop_last());
        if spec_has_id(ms.drop_last(), ms.last().title_id) {
            let k = choose|k: int|
                0 <= k < ms.drop_last().len() && ms.drop_last()[k].title_id
                    == ms.last().title_id;
            assert(ms[k].title_id == ms[ms.len() - 1].title_id);
            assert(false);
        }
        assert(spec_dedup_by_id(ms) =~= ms);
    }
}

// ---------------------------------------------------------------------------
// The machine's contract
// ---------------------------------------------------------------------------

/// Which phases answer with payload bytes rather than a completion.
pub open spec fn expects_payload(p: Phase) -> bool {
    p is RootRead || p is TitleRead
}

/// Whether an event is an answer to what the phase asked for.
pub open spec fn event_fits(p: Phase, e: Event) -> bool {
    match e {
        Event::Done => !expects_payload(p),
        Event::Payload(_) => expects_payload(p),
        Event::Failed => true,
    }
}

/// `a` asks for `url` to be fetched to `path`.
pub open spec fn is_fetch(a: Action, path: Seq<char>, url: Seq<char>) -> bool {
    &&& a matches Action::Fetch { path: p, url: u } && p@ == path && u@ == url
}

/// `a` asks for `container` to be extracted into `out_dir`.
pub open spec fn is_extract(a: Action, container: Seq<char>, out_dir: Seq<char>) -> bool {
    &&& a matches Action::Extract { container: c, out_dir: d } && c@ == container && d@ == out_dir
}

/// `a` asks for the file at `path` to be read.
pub open spec fn is_read(a: Action, path: Seq<char>) -> bool {
    &&& a matches Action::Read { path: p } && p@ == path
}

/// `a` asks for title `m`'s container, named for this configuration.
pub open spec fn is_title_fetch(cfg: ResolverConfig, a: Action, m: MetaRecord) -> bool {
    is_fetch(
        a,
        spec_title_container_path(cfg.version_label@, m.title_id),
        spec_title_container_url(cfg.base_url@, m.title_id, m.title_version, cfg.device_id@),
    )
}

/// `a` asks for content record `c`'s file, named for this configuration.
pub open spec fn is_content_fetch(cfg: ResolverConfig, a: Action, cid: Seq<u8>) -> bool {
    is_fetch(a, spec_content_path(cfg.version_label@, cid), spec_content_url(cfg.base_url@, cid))
}

/// How the machine moves on to the title at `next_t`, or finishes when the
/// title list is exhausted.
pub open spec fn spec_title_step(
    cfg: ResolverConfig,
    ts: Seq<(MetaRecord, MetaType)>,
    next_t: int,
    post: Resolver,
    a: Action,
) -> bool {
    if next_t < ts.len() {
        &&& post.phase is TitleFetch
        &&& post.t_idx == next_t
        &&& is_title_fetch(cfg, a, ts[next_t].0)
    } else {
        &&& post.phase is Done
        &&& a is Finished
    }
}

impl Resolver {
    /// The data the machine carries is consistent: indices in range, every
    /// stored title classified, every stored content record well-formed.
    pub open spec fn inv_data(self) -> bool {
        &&& self.t_idx <= self.titles@.len()
        &&& self.c_idx <= self.contents@.len()
        &&& forall|i: int|
            0 <= i < self.titles@.len() ==> spec_classify(
                (#[trigger] self.titles@[i]).0.ty,
            ) == Some(self.titles@[i].1)
        &&& forall|i: int| 0 <= i < self.contents@.len() ==> (#[trigger] self.contents@[i]).wf()
    }

    /// The machine's invariant: consistent data, and the waiting phases point
    /// at a real current title or content record.
    pub open spec fn inv(self) -> bool {
        &&& self.inv_data()
        &&& (self.phase is TitleFetch || self.phase is TitleExtract || self.phase is TitleRead
            ==> self.t_idx < self.titles@.len())
        &&& (self.phase is ContentFetch ==> self.t_idx < self.titles@.len() && self.c_idx
            < self.contents@.len())
    }

    /// The meta record of the title being visited.
    pub open spec fn cur_title(self) -> MetaRecord {
        self.titles@[self.t_idx as int].0
    }

    /// The classified type of the title being visited.
    pub open spec fn cur_type(self) -> MetaType {
        self.titles@[self.t_idx as int].1
    }

    /// A machine that has not asked for anything yet.
    pub fn new(config: ResolverConfig) -> (r: Resolver)
        ensures
            r.phase is Start,
            r.config == config,
            r.titles@ =~= Seq::<(MetaRecord, MetaType)>::empty(),
            r.inv(),
    {
        Resolver {
            config,
            phase: Phase::Start,
            titles: Vec::new(),
            t_idx: 0,
            contents: Vec::new(),
            c_idx: 0,
        }
    }

    /// Asks for the first piece of outside work: fetching the root update
    /// container for the configured version.
    pub fn start(&mut self) -> (a: Action)
        requires
            old(self).inv(),
            old(self).phase is Start,
        ensures
            final(self).inv(),
            final(self).phase is RootFetch,
            final(self).config == old(self).config,
            final(self).titles@ == old(self).titles@,
            is_fetch(
                a,
                spec_root_container_path(old(self).config.version_label@),
                spec_root_container_url(old(self).config.base_url@, old(self).config.version_num),
            ),
    {
        let path = root_container_path(self.config.version_label.as_str());
        let url = root_container_url(self.config.base_url.as_str(), self.config.version_num);
        self.phase = Phase::RootFetch;
        Action::Fetch { path, url }
    }

    fn begin_title_or_finish(&mut self) -> (a: Action)
        requires
            old(self).inv_data(),
        ensures
            final(self).inv(),
            final(self).config == old(self).config,
            final(self).titles@ == old(self).titles@,
            final(self).contents@ == old(self).contents@,
            final(self).c_idx == old(self).c_idx,
            spec_title_step(
                old(self).config,
                old(self).titles@,
                old(self).t_idx as int,
                *final(self),
                a,
            ),
    {
        if self.t_idx < self.titles.len() {
            let m = self.titles[self.t_idx].0;
            let path = title_container_path(self.config.version_label.as_str(), m.title_id);
            let url = title_container_url(
                self.config.base_url.as_str(),
                m.title_id,
                m.title_version,
                self.config.device_id.as_str(),
            );
            self.phase = Phase::TitleFetch;
            Action::Fetch { path, url }
        } else {
            self.phase = Phase::Done;
            Action::Finished
        }
    }

    fn next_content_or_title(&mut self) -> (a: Action)
        requires
            old(self).inv_data(),
            old(self).t_idx < old(self).titles@.len(),
        ensures
            final(self).inv(),
            final(self).config == old(self).config,
            final(self).titles@ == old(self).titles@,
            final(self).contents@ == old(self).contents@,
            if old(self).c_idx < old(self).contents@.len() {
                &&& final(self).phase is ContentFetch
                &&& final(self).c_idx == old(self).c_idx
                &&& final(self).t_idx == old(self).t_idx
                &&& is_content_fetch(
                    old(self).config,
                    a,
                    old(self).contents@[old(self).c_idx as int]@.content_id,
                )
            } else {
                spec_title_step(
                    old(self).config,
                    old(self).titles@,
                    old(self).t_idx + 1,
                    *final(self),
                    a,
                )
            },
    {
        if self.c_idx < self.contents.len() {
            let path = content_path(
                self.config.version_label.as_str(),
                self.contents[self.c_idx].content_id.as_slice(),
            );
            let url = content_url(
                self.config.base_url.as_str(),
                self.contents[self.c_idx].content_id.as_slice(),
            );
            self.phase = Phase::ContentFetch;
            Action::Fetch { path, url }
        } else {
            let tlen = self.titles.len();
            proof {
                assert(self.t_idx < tlen);
            }
            self.t_idx = self.t_idx + 1;
            self.begin_title_or_finish()
        }
    }

    /// Feeds the machine the outcome of the last action and receives the next
    /// action. Every transition is pinned down: what was decoded, what is
    /// asked next, and in what order titles and contents are walked.
    pub fn step(&mut self, event: Event) -> (a: Action)
        requires
            old(self).inv(),
            !(old(self).phase is Start),
            !(old(self).phase is Done),
            !(old(self).phase is Failed),
            event_fits(old(self).phase, event),
        ensures
            final(self).inv(),
            final(self).config == old(self).config,
            // An outside failure ends the walk, with no error of the library's own.
            event is Failed ==> final(self).phase is Failed && a == (Action::Aborted {
                error: None,
            }),
            // Root container fetched: extract it.
            old(self).phase is RootFetch && event is Done ==> {
                &&& final(self).phase is RootExtract
                &&& final(self).titles@ == old(self).titles@
                &&& is_extract(
                    a,
                    spec_root_container_path(old(self).config.version_label@),
                    spec_extract_dir(spec_root_container_path(old(self).config.version_label@)),
                )
            },
            // Root container extracted: read its metadata payload.
            old(self).phase is RootExtract && event is Done ==> {
                &&& final(self).phase is RootRead
                &&& final(self).titles@ == old(self).titles@
                &&& is_read(
                    a,
                    spec_payload_path(
                        spec_extract_dir(
                            spec_root_container_path(old(self).config.version_label@),
                        ),
                        MetaType::SystemUpdate,
                        ROOT_TITLE_ID,
                    ),
                )
            },
            // A payload read: decode it. At the root, keep the meta table,
            // classify it, and visit the first occurrence of each title id in
            // table order. At a title, keep the content table and fetch its
            // content files in table order; an empty table moves on.
            event matches Event::Payload(b) ==> ({
                let s = b@;
                let ms = spec_metas(s, spec_header_at(s));
                let cs = spec_contents(s, spec_header_at(s));
                if spec_decode_error(s) is Some {
                    &&& final(self).phase is Failed
                    &&& a == (Action::Aborted { error: spec_decode_error(s) })
                } else if old(self).phase is RootRead {
                    if spec_meta_scan_error(ms) is Some {
                        &&& final(self).phase is Failed
                        &&& a == (Action::Aborted { error: spec_meta_scan_error(ms) })
                    } else {
                        &&& spec_title_metas(final(self).titles@) == spec_dedup_by_id(ms)
                        &&& spec_title_step(
                            old(self).config,
                            final(self).titles@,
                            0,
                            *final(self),
                            a,
                        )
                    }
                } else {
                    &&& final(self).titles@ == old(self).titles@
                    &&& content_views(final(self).contents@) == cs
                    &&& if cs.len() > 0 {
                        &&& final(self).phase is ContentFetch
                        &&& final(self).t_idx == old(self).t_idx
                        &&& final(self).c_idx == 0
                        &&& is_content_fetch(old(self).config, a, cs[0].content_id)
                    } else {
                        spec_title_step(
                            old(self).config,
                            old(self).titles@,
                            old(self).t_idx + 1,
                            *final(self),
                            a,
                        )
                    }
                }
            }),
            // Title container fetched: extract it.
            old(self).phase is TitleFetch && event is Done ==> {
                &&& final(self).phase is TitleExtract
                &&& final(self).titles@ == old(self).titles@
                &&& final(self).t_idx == old(self).t_idx
                &&& is_extract(
                    a,
                    spec_title_container_path(
                        old(self).config.version_label@,
                        old(self).cur_title().title_id,
                    ),
                    spec_extract_dir(
                        spec_title_container_path(
                            old(self).config.version_label@,
                            old(self).cur_title().title_id,
                        ),
                    ),
                )
            },
            // Title container extracted: read its metadata payload, named
            // after the title's classified type.
            old(self).phase is TitleExtract && event is Done ==> {
                &&& final(self).phase is TitleRead
                &&& final(self).titles@ == old(self).titles@
                &&& final(self).t_idx == old(self).t_idx
                &&& is_read(
                    a,
                    spec_payload_path(
                        spec_extract_dir(
                            spec_title_container_path(
                                old(self).config.version_label@,
                                old(self).cur_title().title_id,
                            ),
                        ),
                        old(self).cur_type(),
                        old(self).cur_title().title_id,
                    ),
                )
            },
            // Content file fetched: the next one, or the next title.
            old(self).phase is ContentFetch && event is Done ==> {
                &&& final(self).titles@ == old(self).titles@
                &&& final(self).contents@ == old(self).contents@
                &&& if old(self).c_idx + 1 < old(self).contents@.len() {
                    &&& final(self).phase is ContentFetch
                    &&& final(self).t_idx == old(self).t_idx
                    &&& final(self).c_idx == old(self).c_idx + 1
                    &&& is_content_fetch(
                        old(self).config,
                        a,
                        old(self).contents@[old(self).c_idx + 1]@.content_id,
                    )
                } else {
                    spec_title_step(
                        old(self).config,
                        old(self).titles@,
                        old(self).t_idx + 1,
                        *final(self),
                        a,
                    )
                }
            },
    {
        match event {
            Event::Failed => {
                self.phase = Phase::Failed;
                Action::Aborted { error: None }
            },
            Event::Done => {
                match self.phase {
                    Phase::RootFetch => {
                        let container = root_container_path(self.config.version_label.as_str());
                        let out_dir = extract_dir(container.as_str());
                        self.phase = Phase::RootExtract;
                        Action::Extract { container, out_dir }
                    },
                    Phase::RootExtract => {
                        let container = root_container_path(self.config.version_label.as_str());
                        let dir = extract_dir(container.as_str());
                        let path = payload_path(dir.as_str(), MetaType::SystemUpdate, ROOT_TITLE_ID);
                        self.phase = Phase::RootRead;
                        Action::Read { path }
                    },
                    Phase::TitleFetch => {
                        let m = self.titles[self.t_idx].0;
                        let container = title_container_path(
                            self.config.version_label.as_str(),
                            m.title_id,
                        );
                        let out_dir = extract_dir(container.as_str());
                        self.phase = Phase::TitleExtract;
                        Action::Extract { container, out_dir }
                    },
                    Phase::TitleExtract => {
                        let m = self.titles[self.t_idx].0;
                        let t = self.titles[self.t_idx].1;
                        let container = title_container_path(
                            self.config.version_label.as_str(),
                            m.title_id,
                        );
                        let dir = extract_dir(container.as_str());
                        let path = payload_path(dir.as_str(), t, m.title_id);
                        self.phase = Phase::TitleRead;
                        Action::Read { path }
                    },
                    _ => {
                        // Phase::ContentFetch is the only one left by the
                        // requires clauses.
                        let clen = self.contents.len();
                        proof {
                            assert(self.c_idx < clen);
                        }
                        self.c_idx = self.c_idx + 1;
                        self.next_content_or_title()
                    },
                }
            },
            Event::Payload(b) => {
                match decode(b.as_slice()) {
                    Err(e) => {
                        self.phase = Phase::Failed;
                        Action::Aborted { error: Some(e) }
                    },
                    Ok((_h, cs, ms)) => {
                        if matches!(self.phase, Phase::RootRead) {
                            self.accept_root_tables(ms, Ghost(b@))
                        } else {
                            // Phase::TitleRead
                            self.contents = cs;
                            self.c_idx = 0;
                            self.next_content_or_title()
                        }
                    },
                }
            },
        }
    }

    #[verifier::loop_isolation(false)]
    fn accept_root_tables(&mut self, ms: Vec<MetaRecord>, source: Ghost<Seq<u8>>) -> (a: Action)
        requires
            old(self).inv_data(),
            spec_decode_error(source@) is None,
            ms@ == spec_metas(source@, spec_header_at(source@)),
        ensures
            final(self).inv(),
            final(self).config == old(self).config,
            if spec_meta_scan_error(ms@) is Some {
                &&& final(self).phase is Failed
                &&& a == (Action::Aborted { error: spec_meta_scan_error(ms@) })
            } else {
                &&& spec_title_metas(final(self).titles@) == spec_dedup_by_id(ms@)
                &&& spec_title_step(old(self).config, final(self).titles@, 0, *final(self), a)
            },
    {
        let mut titles: Vec<(MetaRecord, MetaType)> = Vec::new();
        let mut i: usize = 0;
        while i < ms.len()
            invariant
                *self == *old(self),
                i <= ms@.len(),
                forall|j: int| 0 <= j < i ==> spec_classify((#[trigger] ms@[j]).ty) is Some,
                spec_title_metas(titles@) == spec_dedup_by_id(ms@.take(i as int)),
                forall|k: int|
                    0 <= k < titles@.len() ==> spec_classify(
                        (#[trigger] titles@[k]).0.ty,
                    ) == Some(titles@[k].1),
            decreases ms@.len() - i,
        {
            let m = ms[i];
            match classify_meta_type(m.ty) {
                Err(e) => {
                    proof {
                        lemma_first_unknown_at(ms@, i as int);
                    }
                    self.phase = Phase::Failed;
                    return Action::Aborted { error: Some(e) };
                },
                Ok(t) => {
                    let already = prefix_has_id(&ms, i, m.title_id);
                    proof {
                        assert(ms@.take(i + 1).drop_last() =~= ms@.take(i as int));
                        assert(ms@.take(i + 1).last() == ms@[i as int]);
                    }
                    if !already {
                        titles.push((m, t));
                        proof {
                            assert(spec_title_metas(titles@) =~= spec_title_metas(
                                titles@.drop_last(),
                            ).push(m));
                        }
                    }
                },
            }
            i = i + 1;
        }
        proof {
            lemma_first_unknown_none(ms@);
            assert(ms@.take(ms@.len() as int) =~= ms@);
        }
        self.titles = titles;
        self.t_idx = 0;
        self.contents = Vec::new();
        self.c_idx = 0;
        self.begin_title_or_finish()
    }
}

/// Whether some record among the first `n` of `ms` carries `id`.
fn prefix_has_id(ms: &Vec<MetaRecord>, n: usize, id: u64) -> (r: bool)
    requires
        n <= ms@.len(),
    ensures
        r == spec_has_id(ms@.take(n as int), id),
{
    let mut j: usize = 0;
    while j < n
        invariant
            j <= n,
            n <= ms@.len(),
            forall|k: int| 0 <= k < j ==> ms@[k].title_id != id,
        decreases n - j,
    {
        if ms[j].title_id == id {
            proof {
                assert(ms@.take(n as int)[j as int].title_id == id);
            }
            return true;
        }
        j = j + 1;
    }
    proof {
        assert forall|k: int| 0 <= k < n implies ms@.take(n as int)[k].title_id != id by {
            assert(ms@[k].title_id != id);
        }
    }
    false
}

} // verus!
