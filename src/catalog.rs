use crate::models::{listed_episode, CatalogEntry, Episode};
use vstd::prelude::*;

verus! {

/// The number of seasons a walk requests at most when no other bound is given.
pub const DEFAULT_MAX_SEASONS: u32 = 9;

/// The abstract state of a walk over a show's seasons.
pub struct WalkState {
    /// The season that is requested next, counting from 1.
    pub next_season: nat,
    /// The last season that may be requested.
    pub max_season: nat,
    /// No further season is requested.
    pub finished: bool,
    /// The episodes listed so far, in order.
    pub episodes: Seq<Episode>,
}

pub open spec fn initial_walk(max_season: nat) -> WalkState {
    WalkState { next_season: 1, max_season, finished: max_season == 0, episodes: seq![] }
}

/// The episodes that a season listing yields, in its order.
pub open spec fn season_episodes(items: Seq<CatalogEntry>) -> Seq<Episode> {
    items.map_values(|e: CatalogEntry| listed_episode(e))
}

/// The state after the listing of the season just requested comes back: an
/// empty listing ends the walk; otherwise its episodes are appended and the
/// walk moves to the next season, unless that is past the bound.
pub open spec fn fed(w: WalkState, items: Seq<CatalogEntry>) -> WalkState {
    if items.len() == 0 {
        WalkState { finished: true, ..w }
    } else {
        WalkState {
            next_season: w.next_season + 1,
            finished: w.next_season + 1 > w.max_season,
            episodes: w.episodes + season_episodes(items),
            ..w
        }
    }
}

/// The state reached by answering the walk's requests with `pages`, one
/// listing per season in order, until it finishes or the pages run out.
pub open spec fn walk(w: WalkState, pages: Seq<Seq<CatalogEntry>>) -> WalkState
    decreases pages.len(),
{
    if w.finished || pages.len() == 0 {
        w
    } else {
        walk(fed(w, pages[0]), pages.drop_first())
    }
}

/// The episodes of all the given season listings, in order.
pub open spec fn all_episodes(pages: Seq<Seq<CatalogEntry>>) -> Seq<Episode>
    decreases pages.len(),
{
    if pages.len() == 0 {
        seq![]
    } else {
        season_episodes(pages[0]) + all_episodes(pages.drop_first())
    }
}

/// Walks the seasons of a show: it names the season to request next and
/// collects the episodes of each listing handed back, until a season comes
/// back empty or the bound on seasons is reached.
pub struct CatalogWalker {
    next_season: u64,
    max_season: u32,
    finished: bool,
    episodes: Vec<Episode>,
}

impl View for CatalogWalker {
    type V = WalkState;

    closed spec fn view(&self) -> WalkState {
        WalkState {
            next_season: self.next_season as nat,
            max_season: self.max_season as nat,
            finished: self.finished,
            episodes: self.episodes@,
        }
    }
}

impl CatalogWalker {
    /// The walker is in a reachable state.
    pub open spec fn wf(&self) -> bool {
        &&& 1 <= self@.next_season <= self@.max_season + 1
        &&& self@.next_season > self@.max_season ==> self@.finished
    }

    /// A walk that requests at most `max_season` seasons, starting at season 1.
    pub fn new(max_season: u32) -> (r: Self)
        ensures
            r.wf(),
            r@ == initial_walk(max_season as nat),
    {
        let r = CatalogWalker {
            next_season: 1,
            max_season,
            finished: max_season == 0,
            episodes: Vec::new(),
        };
        assert(r@.episodes =~= seq![]);
        r
    }

    /// The season to request next, or `None` once the walk has finished.
    pub fn pending_season(&self) -> (r: Option<u32>)
        requires
            self.wf(),
        ensures
            r is None <==> self@.finished,
            r matches Some(s) ==> s as nat == self@.next_season,
    {
        if self.finished {
            None
        } else {
            Some(self.next_season as u32)
        }
    }

    /// Hands the walker the listing of the season it asked for.
    pub fn feed(&mut self, items: Vec<CatalogEntry>)
        requires
            old(self).wf(),
            !old(self)@.finished,
        ensures
            final(self).wf(),
            final(self)@ == fed(old(self)@, items@),
    {
        if items.len() == 0 {
            self.finished = true;
            return;
        }
        let ghost start = self.episodes@;
        let mut i: usize = 0;
        while i < items.len()
            invariant
                i <= items.len(),
                self.episodes@ == start + season_episodes(items@.take(i as int)),
                self.next_season == old(self).next_season,
                self.max_season == old(self).max_season,
                self.finished == old(self).finished,
            decreases items.len() - i,
        {
            let item = &items[i];
            let e = Episode {
                id: item.id,
                title: item.title.clone(),
                video_url: None,
                subtitle_url: None,
                episode_number: item.episode_number,
                tv_show_name: item.tv_show_name.clone(),
            };
            assert(e == listed_episode(items@[i as int]));
            self.episodes.push(e);
            assert(season_episodes(items@.take(i + 1)) =~= season_episodes(items@.take(i as int)).push(e));
            i = i + 1;
        }
        assert(items@.take(items.len() as int) =~= items@);
        self.next_season = self.next_season + 1;
        self.finished = self.next_season > self.max_season as u64;
    }

    /// Whether the walk has finished.
    pub fn is_finished(&self) -> (r: bool)
        ensures
            r == self@.finished,
    {
        self.finished
    }

    /// The episodes collected so far, in order.
    pub fn into_episodes(self) -> (r: Vec<Episode>)
        ensures
            r@ == self@.episodes,
    {
        self.episodes
    }
}

proof fn lemma_walk_from(w: WalkState, pages: Seq<Seq<CatalogEntry>>, k: nat)
    requires
        !w.finished,
        w.next_season + k <= w.max_season,
        k < pages.len(),
        pages[k as int].len() == 0,
        forall|i: int| 0 <= i < k ==> (#[trigger] pages[i]).len() > 0,
    ensures
        walk(w, pages) == (WalkState {
            next_season: w.next_season + k,
            finished: true,
            episodes: w.episodes + all_episodes(pages.take(k as int)),
            ..w
        }),
    decreases k,
{
    let w1 = fed(w, pages[0]);
    if k == 0 {
        assert(pages.take(0) =~= Seq::<Seq<CatalogEntry>>::empty());
        assert(w.episodes + all_episodes(pages.take(0)) =~= w.episodes);
        assert(walk(w1, pages.drop_first()) == w1);
    } else {
        assert(pages[0].len() > 0);
        let rest = pages.drop_first();
        assert forall|i: int| 0 <= i < k - 1 implies (#[trigger] rest[i]).len() > 0 by {
            assert(rest[i] == pages[i + 1]);
        }
        lemma_walk_from(w1, rest, (k - 1) as nat);
        let t = pages.take(k as int);
        assert(t.drop_first() =~= rest.take(k - 1));
        assert(t[0] == pages[0]);
        assert(w.episodes + all_episodes(t) =~= w.episodes + season_episodes(pages[0])
            + all_episodes(rest.take(k - 1)));
    }
}

/// A walk answered with season listings where season `k + 1` is the first
/// empty one, within the bound, ends after requesting exactly seasons `1` to
/// `k + 1`, with exactly the episodes of seasons `1` to `k` in order; the
/// season after the empty one is never requested.
pub proof fn lemma_walk_stops_at_empty_season(
    pages: Seq<Seq<CatalogEntry>>,
    k: nat,
    max_season: nat,
)
    requires
        k < max_season,
        k < pages.len(),
        pages[k as int].len() == 0,
        forall|i: int| 0 <= i < k ==> (#[trigger] pages[i]).len() > 0,
    ensures
        walk(initial_walk(max_season), pages).finished,
        walk(initial_walk(max_season), pages).next_season == k + 1,
        walk(initial_walk(max_season), pages).episodes == all_episodes(pages.take(k as int)),
{
    let w = initial_walk(max_season);
    lemma_walk_from(w, pages, k);
    assert(w.episodes + all_episodes(pages.take(k as int)) =~= all_episodes(pages.take(k as int)));
}

} // verus!
