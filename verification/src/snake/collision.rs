//! Collision detection between snakes.
use vstd::prelude::*;
use std::collections::VecDeque;
use super::location::Location;
use super::shared::{listed, snake_entries, snake_listing};
use super::snake::{state_wf, Snake, SnakeState};
use dashmap::DashMap;

verus! {

/// Result of a collision check
#[derive(Debug, Clone, Copy, PartialEq, Eq, Structural)]
pub struct CollisionEvent {
    /// ID of the snake that was killed
    pub victim_id: u32,
    /// ID of the snake that killed (if any)
    pub killer_id: Option<u32>,
}

/// What snake `a`'s head meets in snake `b` (`same` when they are one snake):
/// its own tail, another head (no killer), or another body (that snake kills it).
pub open spec fn pair_event(a: SnakeState, b: SnakeState, same: bool) -> Option<CollisionEvent> {
    let head = a.body[0];
    if same {
        if a.body.skip(1).contains(head) {
            Some(CollisionEvent { victim_id: a.id, killer_id: None })
        } else {
            None
        }
    } else if head == b.body[0] {
        Some(CollisionEvent { victim_id: a.id, killer_id: None })
    } else if b.body.contains(head) {
        Some(CollisionEvent { victim_id: a.id, killer_id: Some(b.id) })
    } else {
        None
    }
}

/// An optional event as a sequence of at most one.
pub open spec fn opt_seq(o: Option<CollisionEvent>) -> Seq<CollisionEvent> {
    match o {
        Some(e) => seq![e],
        None => Seq::empty(),
    }
}

/// The events of snake `i`'s head against the living snakes among the first `n`.
pub open spec fn row_events(s: Seq<SnakeState>, i: int, n: int) -> Seq<CollisionEvent>
    decreases n,
{
    if n <= 0 {
        Seq::empty()
    } else {
        row_events(s, i, n - 1) + if s[n - 1].alive {
            opt_seq(pair_event(s[i], s[n - 1], i == n - 1))
        } else {
            Seq::empty()
        }
    }
}

/// The events of the living snakes among the first `n`, each against all living snakes.
pub open spec fn all_events(s: Seq<SnakeState>, n: int) -> Seq<CollisionEvent>
    decreases n,
{
    if n <= 0 {
        Seq::empty()
    } else {
        all_events(s, n - 1) + if s[n - 1].alive {
            row_events(s, n - 1, s.len() as int)
        } else {
            Seq::empty()
        }
    }
}

/// The states of a sequence of snakes.
pub open spec fn states(s: Seq<Snake>) -> Seq<SnakeState> {
    s.map_values(|x: Snake| x@)
}

/// Every snake of a sequence satisfies its invariant.
pub open spec fn all_wf(s: Seq<Snake>) -> bool {
    forall|i: int| 0 <= i < s.len() ==> (#[trigger] s[i]).wf()
}

/// Whether `loc` is among the cells of `body` from index `from` on.
fn cells_contain(body: &VecDeque<Location>, from: usize, loc: Location) -> (r: bool)
    requires
        from <= body@.len(),
    ensures
        r == body@.skip(from as int).contains(loc),
{
    let n = body.len();
    let mut i = from;
    while i < n
        invariant
            n == body@.len(),
            from <= i <= n,
            forall|k: int| from <= k < i ==> body@[k] != loc,
        decreases n - i,
    {
        let c = body[i];
        if c.x == loc.x && c.y == loc.y {
            assert(body@.skip(from as int)[i - from] == loc);
            return true;
        }
        i = i + 1;
    }
    proof {
        if body@.skip(from as int).contains(loc) {
            let k = choose|k: int| 0 <= k < body@.skip(from as int).len() && body@.skip(from as int)[k] == loc;
            assert(body@[k + from] == loc);
        }
    }
    false
}

/// Check for collisions between the living snakes, in the order given: each
/// living snake's head against its own tail and against every other living
/// snake. Returns who was killed and by whom.
pub fn collisions_in_order(snakes: &Vec<Snake>) -> (events: Vec<CollisionEvent>)
    requires
        all_wf(snakes@),
    ensures
        events@ == all_events(states(snakes@), snakes@.len() as int),
{
    let mut events: Vec<CollisionEvent> = Vec::new();
    let n = snakes.len();
    let mut a: usize = 0;
    while a < n
        invariant
            n == snakes@.len(),
            a <= n,
            all_wf(snakes@),
            events@ == all_events(states(snakes@), a as int),
        decreases n - a,
    {
        if snakes[a].is_alive() {
            let ghost before = events@;
            let sa = &snakes[a];
            assert(sa.wf());
            let head_a = sa.head();
            let mut b: usize = 0;
            while b < n
                invariant
                    n == snakes@.len(),
                    a < n,
                    b <= n,
                    all_wf(snakes@),
                    sa == snakes@[a as int],
                    head_a == sa.segments()[0],
                    events@ == before + row_events(states(snakes@), a as int, b as int),
                decreases n - b,
            {
                let sb = &snakes[b];
                if sb.is_alive() {
                    assert(sb.wf());
                    if a == b {
                        if cells_contain(sa.body(), 1, head_a) {
                            events.push(CollisionEvent { victim_id: sa.id, killer_id: None });
                        }
                    } else {
                        let head_b = sb.head();
                        if head_a.x == head_b.x && head_a.y == head_b.y {
                            events.push(CollisionEvent { victim_id: sa.id, killer_id: None });
                        } else if cells_contain(sb.body(), 0, head_a) {
                            events.push(CollisionEvent { victim_id: sa.id, killer_id: Some(sb.id) });
                        }
                    }
                }
                proof {
                    assert(sb.segments().skip(0) =~= sb.segments());
                }
                b = b + 1;
            }
        }
        a = a + 1;
    }
    events
}


/// What snake `i` meets in snake `j` when both are alive; none otherwise.
pub open spec fn met(s: Seq<SnakeState>, i: int, j: int) -> Option<CollisionEvent> {
    if s[i].alive && s[j].alive { pair_event(s[i], s[j], i == j) } else { None }
}

proof fn lemma_concat_contains(a: Seq<CollisionEvent>, b: Seq<CollisionEvent>, e: CollisionEvent)
    ensures
        (a + b).contains(e) <==> (a.contains(e) || b.contains(e)),
{
    if (a + b).contains(e) {
        let k = choose|k: int| 0 <= k < (a + b).len() && (a + b)[k] == e;
        if k < a.len() {
            assert(a[k] == e);
        } else {
            assert(b[k - a.len()] == e);
        }
    }
    if a.contains(e) {
        let k = choose|k: int| 0 <= k < a.len() && a[k] == e;
        assert((a + b)[k] == e);
    }
    if b.contains(e) {
        let k = choose|k: int| 0 <= k < b.len() && b[k] == e;
        assert((a + b)[a.len() + k] == e);
    }
}

proof fn lemma_row_events(s: Seq<SnakeState>, i: int, n: int)
    requires
        0 <= i < s.len(),
        0 <= n <= s.len(),
        s[i].alive,
    ensures
        forall|e: CollisionEvent| #[trigger] row_events(s, i, n).contains(e)
            ==> exists|j: int| 0 <= j < n && #[trigger] met(s, i, j) == Some(e),
        forall|j: int| 0 <= j < n && (#[trigger] met(s, i, j)) is Some
            ==> row_events(s, i, n).contains(met(s, i, j)->0),
    decreases n,
{
    if n > 0 {
        lemma_row_events(s, i, n - 1);
        let a = row_events(s, i, n - 1);
        let b = if s[n - 1].alive { opt_seq(pair_event(s[i], s[n - 1], i == n - 1)) } else { Seq::empty() };
        assert(row_events(s, i, n) == a + b);
        assert forall|e: CollisionEvent| #[trigger] row_events(s, i, n).contains(e)
            implies exists|j: int| 0 <= j < n && #[trigger] met(s, i, j) == Some(e) by {
            lemma_concat_contains(a, b, e);
            if !a.contains(e) {
                assert(b.contains(e));
                let k = choose|k: int| 0 <= k < b.len() && b[k] == e;
                assert(met(s, i, n - 1) == Some(e));
            }
        }
        assert forall|j: int| 0 <= j < n && (#[trigger] met(s, i, j)) is Some
            implies row_events(s, i, n).contains(met(s, i, j)->0) by {
            let e = met(s, i, j)->0;
            if j < n - 1 {
                assert(a.contains(e));
            } else {
                assert(b[0] == e);
                assert(b.contains(e));
            }
            lemma_concat_contains(a, b, e);
        }
    }
}

proof fn lemma_all_events(s: Seq<SnakeState>, n: int)
    requires
        0 <= n <= s.len(),
    ensures
        forall|e: CollisionEvent| #[trigger] all_events(s, n).contains(e)
            ==> exists|i: int, j: int| 0 <= i < n && 0 <= j < s.len() && #[trigger] met(s, i, j) == Some(e),
        forall|i: int, j: int| 0 <= i < n && 0 <= j < s.len() && (#[trigger] met(s, i, j)) is Some
            ==> all_events(s, n).contains(met(s, i, j)->0),
    decreases n,
{
    if n > 0 {
        lemma_all_events(s, n - 1);
        let a = all_events(s, n - 1);
        let b = if s[n - 1].alive { row_events(s, n - 1, s.len() as int) } else { Seq::empty() };
        assert(all_events(s, n) == a + b);
        if s[n - 1].alive {
            lemma_row_events(s, n - 1, s.len() as int);
        }
        assert forall|e: CollisionEvent| #[trigger] all_events(s, n).contains(e)
            implies exists|i: int, j: int| 0 <= i < n && 0 <= j < s.len() && #[trigger] met(s, i, j) == Some(e) by {
            lemma_concat_contains(a, b, e);
            if !a.contains(e) {
                assert(b.contains(e));
                assert(s[n - 1].alive);
                assert(row_events(s, n - 1, s.len() as int).contains(e));
                let j = choose|j: int| 0 <= j < s.len() && #[trigger] met(s, n - 1, j) == Some(e);
                assert(met(s, n - 1, j) == Some(e));
            }
        }
        assert forall|i: int, j: int| 0 <= i < n && 0 <= j < s.len() && (#[trigger] met(s, i, j)) is Some
            implies all_events(s, n).contains(met(s, i, j)->0) by {
            let e = met(s, i, j)->0;
            if i < n - 1 {
                assert(a.contains(e));
            } else {
                assert(s[n - 1].alive);
                assert(b.contains(e));
            }
            lemma_concat_contains(a, b, e);
        }
    }
}

/// The collisions found are exactly the meetings of living snakes: each
/// event is what some living snake's head meets in some living snake (its
/// own tail, another head, or another body), and every such meeting is
/// among the events.
pub proof fn lemma_collision_events(s: Seq<SnakeState>)
    ensures
        forall|e: CollisionEvent| #[trigger] all_events(s, s.len() as int).contains(e)
            ==> exists|i: int, j: int| 0 <= i < s.len() && 0 <= j < s.len() && #[trigger] met(s, i, j) == Some(e),
        forall|i: int, j: int| 0 <= i < s.len() && 0 <= j < s.len() && (#[trigger] met(s, i, j)) is Some
            ==> all_events(s, s.len() as int).contains(met(s, i, j)->0),
{
    lemma_all_events(s, s.len() as int);
}

/// Who dies in a collision: every event found names as victim a living
/// snake whose head lies on a living snake's cells. With no killer, the
/// head lies on its own tail, or on the head of another living snake; with
/// a killer, the killer is another living snake whose body holds the
/// victim's head. Conversely, a living snake whose head runs into another
/// living snake's body, their heads apart, is found as that snake's victim;
/// one whose head lies on its own tail, or on another living snake's head,
/// is found as a victim with no killer.
pub proof fn lemma_collision_victims(s: Seq<SnakeState>)
    ensures
        forall|e: CollisionEvent| #[trigger] all_events(s, s.len() as int).contains(e) ==>
            exists|i: int| 0 <= i < s.len() && s[i].alive && #[trigger] s[i].id == e.victim_id && {
                let head = s[i].body[0];
                match e.killer_id {
                    None => s[i].body.skip(1).contains(head) || exists|j: int| 0 <= j < s.len() && j != i
                        && s[j].alive && #[trigger] s[j].body[0] == head,
                    Some(k) => exists|j: int| 0 <= j < s.len() && j != i && s[j].alive
                        && #[trigger] s[j].id == k && s[j].body.contains(head),
                }
            },
        forall|i: int, j: int| 0 <= i < s.len() && 0 <= j < s.len() && i != j && s[i].alive && s[j].alive
            && s[i].body[0] != s[j].body[0] && #[trigger] s[j].body.contains(#[trigger] s[i].body[0])
            ==> all_events(s, s.len() as int).contains(CollisionEvent { victim_id: s[i].id, killer_id: Some(s[j].id) }),
        forall|i: int| 0 <= i < s.len() && s[i].alive && #[trigger] s[i].body.skip(1).contains(s[i].body[0])
            ==> all_events(s, s.len() as int).contains(CollisionEvent { victim_id: s[i].id, killer_id: None }),
        forall|i: int, j: int| 0 <= i < s.len() && 0 <= j < s.len() && i != j && s[i].alive && s[j].alive
            && #[trigger] s[i].body[0] == #[trigger] s[j].body[0]
            ==> all_events(s, s.len() as int).contains(CollisionEvent { victim_id: s[i].id, killer_id: None }),
{
    lemma_all_events(s, s.len() as int);
    assert forall|i: int| 0 <= i < s.len() && s[i].alive && #[trigger] s[i].body.skip(1).contains(s[i].body[0])
        implies all_events(s, s.len() as int).contains(CollisionEvent { victim_id: s[i].id, killer_id: None }) by {
        assert(met(s, i, i) == Some(CollisionEvent { victim_id: s[i].id, killer_id: None }));
    }
    assert forall|i: int, j: int| 0 <= i < s.len() && 0 <= j < s.len() && i != j && s[i].alive && s[j].alive
        && #[trigger] s[i].body[0] == #[trigger] s[j].body[0]
        implies all_events(s, s.len() as int).contains(CollisionEvent { victim_id: s[i].id, killer_id: None }) by {
        assert(met(s, i, j) == Some(CollisionEvent { victim_id: s[i].id, killer_id: None }));
    }
    assert forall|e: CollisionEvent| #[trigger] all_events(s, s.len() as int).contains(e) implies
        exists|i: int| 0 <= i < s.len() && s[i].alive && #[trigger] s[i].id == e.victim_id && {
            let head = s[i].body[0];
            match e.killer_id {
                None => s[i].body.skip(1).contains(head) || exists|j: int| 0 <= j < s.len() && j != i
                    && s[j].alive && #[trigger] s[j].body[0] == head,
                Some(k) => exists|j: int| 0 <= j < s.len() && j != i && s[j].alive
                    && #[trigger] s[j].id == k && s[j].body.contains(head),
            }
        } by {
        let (i, j) = choose|i: int, j: int| 0 <= i < s.len() && 0 <= j < s.len() && #[trigger] met(s, i, j) == Some(e);
        assert(s[i].id == e.victim_id);
        if i != j && s[i].body[0] == s[j].body[0] {
            assert(s[j].body[0] == s[i].body[0]);
        }
    }
    assert forall|i: int, j: int| 0 <= i < s.len() && 0 <= j < s.len() && i != j && s[i].alive && s[j].alive
        && s[i].body[0] != s[j].body[0] && #[trigger] s[j].body.contains(#[trigger] s[i].body[0])
        implies all_events(s, s.len() as int).contains(CollisionEvent { victim_id: s[i].id, killer_id: Some(s[j].id) }) by {
        assert(met(s, i, j) == Some(CollisionEvent { victim_id: s[i].id, killer_id: Some(s[j].id) }));
    }
}

/// Every snake a map holds satisfies the snake invariant.
pub open spec fn map_wf(m: Map<u128, SnakeState>) -> bool {
    forall|k: u128| #[trigger] m.contains_key(k) ==> state_wf(m[k])
}

/// A listing of snakes whose states are listed from a map of well-formed
/// snakes holds well-formed snakes.
proof fn lemma_listed_wf(keys: Seq<u128>, list: Seq<Snake>, m: Map<u128, SnakeState>)
    requires
        listed(keys, states(list), m),
        map_wf(m),
    ensures
        all_wf(list),
{
    assert forall|i: int| 0 <= i < list.len() implies (#[trigger] list[i]).wf() by {
        assert(m.contains_key(keys[i]) && m[keys[i]] == states(list)[i]);
    }
}

/// Check for collisions between the living snakes of the map. The map is
/// walked in its own order and the snakes are checked in that order, as
/// `collisions_in_order` does; the order is the map's, so the events are
/// those of some listing of its snakes.
pub fn check_collisions(snakes: &DashMap<u128, Snake>) -> (events: Vec<CollisionEvent>)
    requires
        map_wf(snake_entries(*snakes)),
    ensures
        exists|keys: Seq<u128>, s: Seq<SnakeState>| #![trigger listed(keys, s, snake_entries(*snakes))]
            listed(keys, s, snake_entries(*snakes)) && events@ == all_events(s, s.len() as int),
{
    let (keys, list) = snake_listing(snakes);
    proof { lemma_listed_wf(keys@, list@, snake_entries(*snakes)); }
    let events = collisions_in_order(&list);
    proof {
        assert(listed(keys@, states(list@), snake_entries(*snakes)) && events@ == all_events(states(list@), states(list@).len() as int));
    }
    events
}

} // verus!
