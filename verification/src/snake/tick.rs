//! One tick of the game: movement, collisions, kills, rewards and food.
use vstd::prelude::*;
use super::collision::{all_events, all_wf, collisions_in_order, map_wf, states, CollisionEvent};
use super::shared::{food_entries, food_listing, listed, put_food, put_snake, snake_entries, snake_listing};
use dashmap::DashMap;
use super::direction::Direction;
use super::food::Food;
use super::location::{on_grid, Location};
use super::protocol::{FoodData, SnakeData};
use super::snake::{all_on_grid, moved_body, rewarded_body, state_wf, Snake, SnakeState};

verus! {

/// A snake's head reached a food item.
#[derive(Debug, Clone, Copy, PartialEq, Eq, Structural)]
pub struct FoodEaten {
    pub snake_id: u32,
    pub food_id: u32,
    pub location: Location,
}

/// What a tick did, for logging and broadcasting.
#[derive(Debug, Clone)]
pub struct TickOutcome {
    /// The collisions found after movement, in order.
    pub deaths: Vec<CollisionEvent>,
    /// The food eaten by living snakes, in order.
    pub eaten: Vec<FoodEaten>,
    /// The living snakes after the tick.
    pub snakes: Vec<SnakeData>,
    /// The food items after the tick.
    pub food: Vec<FoodData>,
}

/// A snake after one step of movement.
pub open spec fn stepped(x: SnakeState) -> SnakeState {
    if x.alive && x.direction != Direction::Still {
        SnakeState { body: moved_body(x.body, x.direction), ..x }
    } else {
        x
    }
}

/// A snake grown by a reward.
pub open spec fn grown(x: SnakeState) -> SnakeState {
    SnakeState { body: rewarded_body(x.body), ..x }
}

/// A snake after a collision event: the victim dies, the killer grows.
pub open spec fn after_collision(x: SnakeState, e: CollisionEvent) -> SnakeState {
    let y = if x.id == e.victim_id { SnakeState { alive: false, ..x } } else { x };
    if e.killer_id == Some(x.id) { grown(y) } else { y }
}

/// All snakes after the collision events, applied in order.
pub open spec fn collide_all(s: Seq<SnakeState>, evs: Seq<CollisionEvent>) -> Seq<SnakeState>
    decreases evs.len(),
{
    if evs.len() == 0 {
        s
    } else {
        collide_all(s, evs.drop_last()).map_values(|x: SnakeState| after_collision(x, evs.last()))
    }
}

/// The index of the first food among the first `n` that lies at `loc`.
pub open spec fn first_food(foods: Seq<(u32, Food)>, loc: Location, n: int) -> Option<int>
    decreases n,
{
    if n <= 0 {
        None
    } else {
        match first_food(foods, loc, n - 1) {
            Some(k) => Some(k),
            None => if foods[n - 1].1.location == loc { Some(n - 1) } else { None },
        }
    }
}

/// The meals of the living snakes among the first `n`: each eats the first
/// food at its head.
pub open spec fn meals(s: Seq<SnakeState>, foods: Seq<(u32, Food)>, n: int) -> Seq<FoodEaten>
    decreases n,
{
    if n <= 0 {
        Seq::empty()
    } else {
        meals(s, foods, n - 1) + if s[n - 1].alive {
            match first_food(foods, s[n - 1].body[0], foods.len() as int) {
                Some(k) => seq![FoodEaten { snake_id: s[n - 1].id, food_id: foods[k].0, location: foods[k].1.location }],
                None => Seq::empty(),
            }
        } else {
            Seq::empty()
        }
    }
}

/// The index of the first snake among the first `n` with the identifier.
pub open spec fn first_with_id(s: Seq<SnakeState>, id: u32, n: int) -> Option<int>
    decreases n,
{
    if n <= 0 {
        None
    } else {
        match first_with_id(s, id, n - 1) {
            Some(k) => Some(k),
            None => if s[n - 1].id == id { Some(n - 1) } else { None },
        }
    }
}

/// The snakes after the first one with the identifier was fed.
pub open spec fn feed(s: Seq<SnakeState>, id: u32) -> Seq<SnakeState> {
    match first_with_id(s, id, s.len() as int) {
        Some(k) => s.update(k, grown(s[k])),
        None => s,
    }
}

/// The snakes after all meals, in order.
pub open spec fn feed_all(s: Seq<SnakeState>, m: Seq<FoodEaten>) -> Seq<SnakeState>
    decreases m.len(),
{
    if m.len() == 0 {
        s
    } else {
        feed(feed_all(s, m.drop_last()), m.last().snake_id)
    }
}

/// The living snakes among the first `n`, in order.
pub open spec fn living_among(s: Seq<SnakeState>, n: int) -> Seq<SnakeState>
    decreases n,
{
    if n <= 0 {
        Seq::empty()
    } else {
        living_among(s, n - 1) + if s[n - 1].alive { seq![s[n - 1]] } else { Seq::empty() }
    }
}

/// Protocol data describes a snake state.
pub open spec fn describes(d: SnakeData, x: SnakeState) -> bool {
    &&& d.id == x.id
    &&& d.color@ == x.color
    &&& d.body@.len() == x.body.len()
    &&& forall|i: int| 0 <= i < d.body@.len() ==> (#[trigger] d.body@[i]).x == x.body[i].x && d.body@[i].y == x.body[i].y
}

/// The food identifiers are distinct.
pub open spec fn distinct_keys(f: Seq<(u32, Food)>) -> bool {
    forall|i: int, j: int| 0 <= i < j < f.len() ==> f[i].0 != f[j].0
}

/// Some meal names the food identifier.
pub open spec fn eaten_id(m: Seq<FoodEaten>, id: u32) -> bool {
    exists|i: int| 0 <= i < m.len() && m[i].food_id == id
}

/// Every state of a sequence satisfies the snake invariant.
pub open spec fn all_state_wf(s: Seq<SnakeState>) -> bool {
    forall|i: int| 0 <= i < s.len() ==> state_wf(#[trigger] s[i])
}

proof fn lemma_grown_wf(x: SnakeState)
    requires
        state_wf(x),
    ensures
        state_wf(grown(x)),
{
    let b = rewarded_body(x.body);
    assert forall|i: int| 0 <= i < b.len() implies on_grid(#[trigger] b[i]) by {
        if i < x.body.len() {
            assert(b[i] == x.body[i]);
        } else {
            assert(b[i] == x.body[x.body.len() - 1]);
        }
    }
}

proof fn lemma_collide_wf(s: Seq<SnakeState>, evs: Seq<CollisionEvent>)
    requires
        all_state_wf(s),
    ensures
        all_state_wf(collide_all(s, evs)),
        collide_all(s, evs).len() == s.len(),
    decreases evs.len(),
{
    if evs.len() > 0 {
        lemma_collide_wf(s, evs.drop_last());
        let t = collide_all(s, evs.drop_last());
        assert forall|i: int| 0 <= i < t.len() implies state_wf(#[trigger] after_collision(t[i], evs.last())) by {
            let y = if t[i].id == evs.last().victim_id { SnakeState { alive: false, ..t[i] } } else { t[i] };
            lemma_grown_wf(y);
        }
    }
}

proof fn lemma_first_with_id(s: Seq<SnakeState>, id: u32, n: int)
    requires
        0 <= n <= s.len(),
    ensures
        match first_with_id(s, id, n) {
            Some(k) => 0 <= k < n && s[k].id == id && forall|j: int| 0 <= j < k ==> s[j].id != id,
            None => forall|j: int| 0 <= j < n ==> s[j].id != id,
        },
    decreases n,
{
    if n > 0 {
        lemma_first_with_id(s, id, n - 1);
    }
}

proof fn lemma_feed_all_wf(s: Seq<SnakeState>, m: Seq<FoodEaten>)
    requires
        all_state_wf(s),
    ensures
        all_state_wf(feed_all(s, m)),
        feed_all(s, m).len() == s.len(),
    decreases m.len(),
{
    if m.len() > 0 {
        lemma_feed_all_wf(s, m.drop_last());
        let t = feed_all(s, m.drop_last());
        lemma_first_with_id(t, m.last().snake_id, t.len() as int);
        match first_with_id(t, m.last().snake_id, t.len() as int) {
            Some(k) => { lemma_grown_wf(t[k]); }
            None => {}
        }
    }
}

proof fn lemma_meal_keys(s: Seq<SnakeState>, foods: Seq<(u32, Food)>, n: int)
    requires
        0 <= n <= s.len(),
    ensures
        forall|w: int| 0 <= w < meals(s, foods, n).len() ==> exists|k: int| 0 <= k < foods.len()
            && foods[k].0 == (#[trigger] meals(s, foods, n)[w]).food_id,
    decreases n,
{
    if n > 0 {
        lemma_meal_keys(s, foods, n - 1);
        lemma_first_food(foods, s[n - 1].body[0], foods.len() as int);
        let a = meals(s, foods, n - 1);
        let b = meals(s, foods, n);
        assert forall|w: int| 0 <= w < b.len() implies exists|k: int| 0 <= k < foods.len()
            && foods[k].0 == (#[trigger] b[w]).food_id by {
            if w < a.len() {
                assert(b[w] == a[w]);
            }
        }
    }
}

proof fn lemma_first_food(foods: Seq<(u32, Food)>, loc: Location, n: int)
    requires
        0 <= n <= foods.len(),
    ensures
        match first_food(foods, loc, n) {
            Some(k) => 0 <= k < n && foods[k].1.location == loc && forall|j: int| 0 <= j < k ==> foods[j].1.location != loc,
            None => forall|j: int| 0 <= j < n ==> foods[j].1.location != loc,
        },
    decreases n,
{
    if n > 0 {
        lemma_first_food(foods, loc, n - 1);
    }
}

/// What a tick does to the snakes `s0` and the food items `f0`, both listed
/// in their map's walking order, leaving the snakes `s1` and the food items
/// `f1` listed in the same order, with the outcome `r`. With no snakes
/// nothing happens and there is no outcome. Otherwise every snake steps;
/// the collisions among the living snakes are found; each victim dies and
/// each killer grows; each living snake then eats the first food at its
/// head, that food respawns at a cell of the grid and the first snake with
/// the eater's identifier grows. The outcome lists the deaths, the meals,
/// and the living snakes and food to broadcast.
pub open spec fn tick_result(s0: Seq<SnakeState>, f0: Seq<(u32, Food)>, s1: Seq<SnakeState>,
    f1: Seq<(u32, Food)>, r: Option<TickOutcome>) -> bool
{
    &&& s0.len() == 0 ==> r is None && s1 == s0 && f1 == f0
    &&& s0.len() > 0 ==> r is Some
    &&& r matches Some(o) ==> {
        let moved = s0.map_values(|x: SnakeState| stepped(x));
        let deaths = all_events(moved, moved.len() as int);
        let after = collide_all(moved, deaths);
        let m = meals(after, f0, after.len() as int);
        let fin = feed_all(after, m);
        &&& o.deaths@ == deaths
        &&& o.eaten@ == m
        &&& s1 == fin
        &&& f1.len() == f0.len()
        &&& forall|k: int| 0 <= k < f1.len() ==> {
            &&& (#[trigger] f1[k]).0 == f0[k].0
            &&& if eaten_id(m, f0[k].0) {
                on_grid(f1[k].1.location)
            } else {
                f1[k] == f0[k]
            }
        }
        &&& o.snakes@.len() == living_among(fin, fin.len() as int).len()
        &&& forall|i: int| 0 <= i < o.snakes@.len() ==> describes(#[trigger] o.snakes@[i], living_among(fin, fin.len() as int)[i])
        &&& o.food@.len() == f1.len()
        &&& forall|i: int| 0 <= i < o.food@.len() ==> (#[trigger] o.food@[i]).x == f1[i].1.location.x
            && o.food@[i].y == f1[i].1.location.y
    }
}

/// Runs one tick of the game over the snakes and food items, both in their
/// map's walking order, as `tick_result` states.
pub fn tick_in_order(snakes: &mut Vec<Snake>, foods: &mut Vec<(u32, Food)>) -> (r: Option<TickOutcome>)
    requires
        all_wf(old(snakes)@),
        distinct_keys(old(foods)@),
    ensures
        all_wf(final(snakes)@),
        distinct_keys(final(foods)@),
        final(snakes)@.len() == old(snakes)@.len(),
        tick_result(states(old(snakes)@), old(foods)@, states(final(snakes)@), final(foods)@, r),
{
    let n = snakes.len();
    if n == 0 {
        return None;
    }
    let ghost s0 = states(snakes@);
    let ghost moved = s0.map_values(|x: SnakeState| stepped(x));
    // Movement.
    let mut i: usize = 0;
    while i < n
        invariant
            n == snakes@.len(),
            i <= n,
            all_wf(snakes@),
            s0.len() == n,
            moved == s0.map_values(|x: SnakeState| stepped(x)),
            forall|k: int| 0 <= k < i ==> #[trigger] snakes@[k]@ == moved[k],
            forall|k: int| i <= k < n ==> #[trigger] snakes@[k]@ == s0[k],
        decreases n - i,
    {
        assert(snakes@[i as int].wf());
        let ghost before_i = snakes@[i as int];
        assert(before_i@ == s0[i as int]);
        snakes[i].update();
        assert(snakes@[i as int].id == before_i.id);
        assert(snakes@[i as int].color@ == before_i.color@);
        assert(snakes@[i as int].alive == before_i.alive);
        assert(snakes@[i as int].direction == before_i.direction);
        assert(moved[i as int] == stepped(s0[i as int]));
        assert(snakes@[i as int].body@ == stepped(s0[i as int]).body);
        assert(snakes@[i as int]@ == moved[i as int]);
        i = i + 1;
    }
    assert(states(snakes@) =~= moved);
    // Collisions.
    let deaths = collisions_in_order(snakes);
    let mut e: usize = 0;
    proof {
        assert(all_state_wf(moved)) by {
            assert forall|k: int| 0 <= k < moved.len() implies state_wf(#[trigger] moved[k]) by {
                assert(snakes@[k].wf());
            }
        }
    }
    while e < deaths.len()
        invariant
            n == snakes@.len(),
            e <= deaths@.len(),
            all_wf(snakes@),
            deaths@ == all_events(moved, moved.len() as int),
            moved.len() == n,
            states(snakes@) == collide_all(moved, deaths@.take(e as int)),
        decreases deaths@.len() - e,
    {
        let ev = deaths[e];
        let ghost base = states(snakes@);
        let mut j: usize = 0;
        while j < n
            invariant
                n == snakes@.len(),
                j <= n,
                all_wf(snakes@),
                base.len() == n,
                forall|k: int| 0 <= k < j ==> #[trigger] snakes@[k]@ == (if base[k].id == ev.victim_id {
                    SnakeState { alive: false, ..base[k] }
                } else {
                    base[k]
                }),
                forall|k: int| j <= k < n ==> #[trigger] snakes@[k]@ == base[k],
            decreases n - j,
        {
            if snakes[j].id == ev.victim_id {
                let ghost before_j = snakes@[j as int];
                assert(snakes@[j as int]@ == base[j as int]);
                snakes[j].kill();
                assert(snakes@[j as int].id == before_j.id);
                assert(snakes@[j as int].color@ == before_j.color@);
                assert(snakes@[j as int].direction == before_j.direction);
                assert(snakes@[j as int].body@ == before_j.body@);
                assert(snakes@[j as int]@ == SnakeState { alive: false, ..base[j as int] });
            }
            j = j + 1;
        }
        let ghost killed = states(snakes@);
        if let Some(killer) = ev.killer_id {
            let mut j: usize = 0;
            while j < n
                invariant
                    n == snakes@.len(),
                    j <= n,
                    all_wf(snakes@),
                    killed.len() == n,
                    ev.killer_id == Some(killer),
                    forall|k: int| 0 <= k < j ==> #[trigger] snakes@[k]@ == (if killed[k].id == killer {
                        grown(killed[k])
                    } else {
                        killed[k]
                    }),
                    forall|k: int| j <= k < n ==> #[trigger] snakes@[k]@ == killed[k],
                decreases n - j,
            {
                if snakes[j].id == killer {
                    assert(snakes@[j as int].wf());
                    let ghost before_j = snakes@[j as int];
                    assert(snakes@[j as int]@ == killed[j as int]);
                    snakes[j].reward();
                    assert(snakes@[j as int].id == before_j.id);
                    assert(snakes@[j as int].color@ == before_j.color@);
                    assert(snakes@[j as int].direction == before_j.direction);
                    assert(snakes@[j as int].alive == before_j.alive);
                    assert(snakes@[j as int].body@ == rewarded_body(before_j.body@));
                    assert(snakes@[j as int]@ == grown(killed[j as int]));
                }
                j = j + 1;
            }
        }
        proof {
            let t = deaths@.take(e as int + 1);
            assert(t.drop_last() =~= deaths@.take(e as int));
            assert(t.last() == ev);
            assert(states(snakes@) =~= collide_all(moved, t));
        }
        e = e + 1;
    }
    assert(deaths@.take(deaths@.len() as int) =~= deaths@);
    let ghost after = states(snakes@);
    // Food: find the meals.
    let mut eaten: Vec<FoodEaten> = Vec::new();
    let nf = foods.len();
    let mut i: usize = 0;
    while i < n
        invariant
            n == snakes@.len(),
            nf == foods@.len(),
            i <= n,
            all_wf(snakes@),
            states(snakes@) == after,
            after.len() == n,
            eaten@ == meals(after, foods@, i as int),
        decreases n - i,
    {
        if snakes[i].is_alive() {
            assert(snakes@[i as int].wf());
            let head = snakes[i].head();
            let sid = snakes[i].id;
            let mut k: usize = 0;
            while k < nf && !foods[k].1.is_at(&head)
                invariant
                    nf == foods@.len(),
                    k <= nf,
                    forall|j: int| 0 <= j < k ==> foods@[j].1.location != head,
                decreases nf - k,
            {
                k = k + 1;
            }
            proof {
                lemma_first_food(foods@, head, nf as int);
                assert(head == after[i as int].body[0]);
            }
            if k < nf {
                proof {
                    assert(first_food(foods@, head, nf as int) == Some(k as int));
                }
                eaten.push(FoodEaten { snake_id: sid, food_id: foods[k].0, location: foods[k].1.location });
            } else {
                assert(first_food(foods@, head, nf as int) is None);
            }
        }
        i = i + 1;
    }
    let ghost foods0 = foods@;
    let ghost m = eaten@;
    proof {
        lemma_collide_wf(moved, deaths@);
    }
    // Food: respawn eaten food and reward eaters.
    let mut e: usize = 0;
    while e < eaten.len()
        invariant
            n == snakes@.len(),
            nf == foods@.len(),
            e <= eaten@.len(),
            eaten@ == m,
            m == meals(after, foods0, n as int),
            all_wf(snakes@),
            all_state_wf(after),
            after.len() == n,
            states(snakes@) == feed_all(after, m.take(e as int)),
            foods0.len() == nf,
            distinct_keys(foods0),
            forall|k: int| 0 <= k < nf ==> {
                &&& (#[trigger] foods@[k]).0 == foods0[k].0
                &&& if eaten_id(m.take(e as int), foods0[k].0) {
                    on_grid(foods@[k].1.location)
                } else {
                    foods@[k] == foods0[k]
                }
            },
        decreases eaten@.len() - e,
    {
        let meal = eaten[e];
        proof {
            lemma_meal_keys(after, foods0, n as int);
            assert(m[e as int] == meal);
        }
        // Respawn the food with this identifier.
        let mut k: usize = 0;
        while k < nf && foods[k].0 != meal.food_id
            invariant
                nf == foods@.len(),
                k <= nf,
                forall|j: int| 0 <= j < k ==> foods@[j].0 != meal.food_id,
            decreases nf - k,
        {
            k = k + 1;
        }
        let ghost foods_before = foods@;
        if k < nf {
            let (key, mut food) = foods[k];
            food.respawn();
            foods.set(k, (key, food));
        }
        // Reward the first snake with the eater's identifier.
        let ghost fed = states(snakes@);
        proof { lemma_first_with_id(fed, meal.snake_id, n as int); }
        let mut j: usize = 0;
        while j < n && snakes[j].id != meal.snake_id
            invariant
                n == snakes@.len(),
                j <= n,
                states(snakes@) == fed,
                fed.len() == n,
                forall|q: int| 0 <= q < j ==> fed[q].id != meal.snake_id,
            decreases n - j,
        {
            j = j + 1;
        }
        proof {
            lemma_feed_all_wf(after, m.take(e as int));
        }
        if j < n {
            assert(snakes@[j as int].wf());
            let ghost before_j = snakes@[j as int];
            assert(fed[j as int] == before_j@);
            snakes[j].reward();
            assert(snakes@[j as int].id == before_j.id);
            assert(snakes@[j as int].color@ == before_j.color@);
            assert(snakes@[j as int].direction == before_j.direction);
            assert(snakes@[j as int].alive == before_j.alive);
            assert(snakes@[j as int].body@ == rewarded_body(before_j.body@));
            assert(snakes@[j as int]@ == grown(fed[j as int]));
            proof {
                assert(first_with_id(fed, meal.snake_id, n as int) == Some(j as int));
                assert(states(snakes@) =~= feed(fed, meal.snake_id));
            }
        } else {
            assert(first_with_id(fed, meal.snake_id, n as int) is None);
            assert(states(snakes@) =~= feed(fed, meal.snake_id));
        }
        proof {
            let t = m.take(e as int + 1);
            assert(t.drop_last() =~= m.take(e as int));
            assert(t.last() == meal);
            assert forall|q: int| 0 <= q < nf implies {
                &&& (#[trigger] foods@[q]).0 == foods0[q].0
                &&& if eaten_id(t, foods0[q].0) {
                    on_grid(foods@[q].1.location)
                } else {
                    foods@[q] == foods0[q]
                }
            } by {
                if eaten_id(t, foods0[q].0) {
                    if !eaten_id(m.take(e as int), foods0[q].0) {
                        let w = choose|w: int| 0 <= w < t.len() && t[w].food_id == foods0[q].0;
                        if w < e {
                            assert(m.take(e as int)[w].food_id == foods0[q].0);
                        }
                        assert(foods0[q].0 == meal.food_id);
                        if k == nf {
                            assert(foods_before[q].0 == foods0[q].0);
                            assert(false);
                        }
                        assert(foods_before[k as int].0 == meal.food_id);
                        assert(foods_before[k as int].0 == foods0[k as int].0);
                        assert(k == q);
                    }
                } else {
                    assert(!eaten_id(m.take(e as int), foods0[q].0)) by {
                        if eaten_id(m.take(e as int), foods0[q].0) {
                            let w = choose|w: int| 0 <= w < e && m.take(e as int)[w].food_id == foods0[q].0;
                            assert(t[w].food_id == foods0[q].0);
                        }
                    }
                    if k == q {
                        assert(eaten_id(t, foods0[q].0)) by {
                            assert(t[e as int].food_id == foods0[q].0);
                        }
                    }
                }
            }
            assert forall|q: int| 0 <= q < n implies (#[trigger] snakes@[q]).wf() by {
                lemma_feed_all_wf(after, t);
                assert(states(snakes@)[q] == snakes@[q]@);
            }
        }
        e = e + 1;
    }
    assert(m.take(m.len() as int) =~= m);
    let ghost fin = states(snakes@);
    // The broadcast data.
    let mut data: Vec<SnakeData> = Vec::new();
    let mut i: usize = 0;
    while i < n
        invariant
            n == snakes@.len(),
            i <= n,
            states(snakes@) == fin,
            fin.len() == n,
            all_wf(snakes@),
            data@.len() == living_among(fin, i as int).len(),
            forall|q: int| 0 <= q < data@.len() ==> describes(#[trigger] data@[q], living_among(fin, i as int)[q]),
        decreases n - i,
    {
        if snakes[i].is_alive() {
            let d = snakes[i].to_data();
            data.push(d);
            proof {
                assert(fin[i as int] == snakes@[i as int]@);
                assert(living_among(fin, i as int + 1) =~= living_among(fin, i as int).push(fin[i as int]));
            }
        } else {
            assert(living_among(fin, i as int + 1) =~= living_among(fin, i as int));
        }
        i = i + 1;
    }
    let mut food: Vec<FoodData> = Vec::new();
    let mut k: usize = 0;
    while k < nf
        invariant
            nf == foods@.len(),
            k <= nf,
            food@.len() == k,
            forall|q: int| 0 <= q < k ==> (#[trigger] food@[q]).x == foods@[q].1.location.x
                && food@[q].y == foods@[q].1.location.y,
        decreases nf - k,
    {
        food.push(foods[k].1.to_data());
        k = k + 1;
    }
    Some(TickOutcome { deaths, eaten, snakes: data, food })
}

/// Food items paired with their identifiers, position by position.
pub open spec fn paired(keys: Seq<u32>, items: Seq<Food>) -> Seq<(u32, Food)> {
    Seq::new(keys.len(), |i: int| (keys[i], items[i]))
}

/// What a tick does to the game's maps: the snakes `ms0` and the food `mf0`
/// become `ms1` and `mf1`, and the outcome is `r`, as `tick_result` states
/// for a listing of the maps in some walking order (the same order before
/// and after).
pub open spec fn tick_of_maps(ms0: Map<u128, SnakeState>, mf0: Map<u32, Food>, ms1: Map<u128, SnakeState>,
    mf1: Map<u32, Food>, r: Option<TickOutcome>) -> bool
{
    exists|keys: Seq<u128>, s0: Seq<SnakeState>, s1: Seq<SnakeState>, fkeys: Seq<u32>, f0: Seq<Food>, f1: Seq<Food>|
        #![trigger listed(keys, s0, ms0), listed(keys, s1, ms1), listed(fkeys, f0, mf0), listed(fkeys, f1, mf1)]
        {
            &&& listed(keys, s0, ms0)
            &&& listed(keys, s1, ms1)
            &&& listed(fkeys, f0, mf0)
            &&& listed(fkeys, f1, mf1)
            &&& tick_result(s0, paired(fkeys, f0), s1, paired(fkeys, f1), r)
        }
}

/// Runs one tick of the game on its maps: the snakes and the food items are
/// walked in their maps' order, the tick runs as `tick_in_order` does, and
/// each snake and food item is stored back under its key. The walking order
/// is the maps' own.
pub fn game_tick(snakes: &mut DashMap<u128, Snake>, foods: &mut DashMap<u32, Food>) -> (r: Option<TickOutcome>)
    requires
        map_wf(snake_entries(*old(snakes))),
    ensures
        map_wf(snake_entries(*final(snakes))),
        tick_of_maps(snake_entries(*old(snakes)), food_entries(*old(foods)), snake_entries(*final(snakes)),
            food_entries(*final(foods)), r),
{
    let ghost ms0 = snake_entries(*snakes);
    let ghost mf0 = food_entries(*foods);
    let (keys, mut list) = snake_listing(snakes);
    let (fkeys, fitems) = food_listing(foods);
    let ghost s0 = states(list@);
    proof {
        assert forall|i: int| 0 <= i < list@.len() implies (#[trigger] list@[i]).wf() by {
            assert(ms0.contains_key(keys@[i]) && ms0[keys@[i]] == s0[i]);
        }
    }
    let mut fl: Vec<(u32, Food)> = Vec::new();
    let mut i: usize = 0;
    while i < fkeys.len()
        invariant
            i <= fkeys@.len(),
            fkeys@.len() == fitems@.len(),
            fl@ == paired(fkeys@, fitems@).take(i as int),
        decreases fkeys@.len() - i,
    {
        fl.push((fkeys[i], fitems[i]));
        i = i + 1;
        proof { assert(fl@ =~= paired(fkeys@, fitems@).take(i as int)); }
    }
    proof { assert(fl@ =~= paired(fkeys@, fitems@)); }
    let ghost f0 = fl@;
    let r = tick_in_order(&mut list, &mut fl);
    let ghost s1 = states(list@);
    let ghost full = list@;
    let ghost f1 = fl@;
    // The food items go back under their keys.
    let mut j: usize = 0;
    while j < fl.len()
        invariant
            j <= fl@.len(),
            fl@ == f1,
            f1.len() == fkeys@.len(),
            forall|k: int| 0 <= k < f1.len() ==> (#[trigger] f1[k]).0 == fkeys@[k],
            listed(fkeys@, fitems@, mf0),
            forall|k: u32| #[trigger] food_entries(*foods).contains_key(k) <==> mf0.contains_key(k),
            forall|k: int| 0 <= k < j ==> food_entries(*foods)[#[trigger] fkeys@[k]] == f1[k].1,
            forall|k: int| j <= k < f1.len() ==> food_entries(*foods)[#[trigger] fkeys@[k]] == fitems@[k],
        decreases f1.len() - j,
    {
        let (key, item) = fl[j];
        let ghost before = food_entries(*foods);
        put_food(foods, key, item);
        proof {
            assert forall|k: int| 0 <= k < f1.len() && k != j implies food_entries(*foods)[#[trigger] fkeys@[k]]
                == before[fkeys@[k]] by {
                assert(fkeys@[k] != fkeys@[j as int]);
            }
        }
        j = j + 1;
    }
    let ghost f1items = f1.map_values(|p: (u32, Food)| p.1);
    proof {
        assert(paired(fkeys@, f1items) =~= f1);
        assert forall|k: u32| #[trigger] food_entries(*foods).contains_key(k) implies fkeys@.contains(k) by {
            assert(mf0.contains_key(k));
        }
        assert(listed(fkeys@, f1items, food_entries(*foods)));
    }
    // The snakes go back under their keys, from the last to the first.
    let mut n: usize = list.len();
    while n > 0
        invariant
            n <= full.len(),
            list@ == full.take(n as int),
            full.len() == keys@.len(),
            s1 == states(full),
            all_wf(full),
            listed(keys@, s0, ms0),
            forall|k: u128| #[trigger] snake_entries(*snakes).contains_key(k) <==> ms0.contains_key(k),
            forall|k: int| n <= k < full.len() ==> snake_entries(*snakes)[#[trigger] keys@[k]] == full[k]@,
        decreases n,
    {
        let ghost before = snake_entries(*snakes);
        let snake = list.pop().unwrap();
        n = n - 1;
        proof { assert(list@ =~= full.take(n as int)); }
        put_snake(snakes, keys[n], snake);
        proof {
            assert forall|k: int| n < k < full.len() implies snake_entries(*snakes)[#[trigger] keys@[k]]
                == before[keys@[k]] by {
                assert(keys@[k] != keys@[n as int]);
            }
        }
    }
    proof {
        assert forall|k: u128| #[trigger] snake_entries(*snakes).contains_key(k) implies keys@.contains(k) by {
            assert(ms0.contains_key(k));
        }
        assert(listed(keys@, s1, snake_entries(*snakes)));
        assert forall|k: u128| #[trigger] snake_entries(*snakes).contains_key(k) implies state_wf(snake_entries(*snakes)[k]) by {
            assert(keys@.contains(k));
            let q = choose|q: int| 0 <= q < keys@.len() && keys@[q] == k;
            assert(full[q].wf());
        }
        assert(listed(keys@, s0, ms0) && listed(keys@, s1, snake_entries(*snakes))
            && listed(fkeys@, fitems@, mf0) && listed(fkeys@, f1items, food_entries(*foods))
            && tick_result(s0, paired(fkeys@, fitems@), s1, paired(fkeys@, f1items), r));
    }
    r
}

} // verus!
