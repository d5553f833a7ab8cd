//! The neighbourhood operator: from a cell to its neighbours.

use vstd::prelude::*;
use crate::lang::parse::blocks::neighborhood::{
    models,
    Dimension,
    NeighborhoodBlock,
    NeighborhoodRule,
    RuleModel,
};
use crate::lang::runtime::datatypes::coords::{fits, Coordinate};

verus! {

/// The cells that a directed edge of offset `m` along `dimension` reaches
/// from `c`: `None` where `c` lacks the axis or a translated component is
/// not representable.
pub open spec fn edge(c: Coordinate, dimension: Dimension, m: int) -> Option<Seq<Coordinate>> {
    match dimension {
        Dimension::X => if c.shift_ok(m, 0, 0) {
            Some(seq![c.shifted(m, 0, 0)])
        } else {
            None
        },
        Dimension::Y => if c.dims() >= 2 && c.shift_ok(0, m, 0) {
            Some(seq![c.shifted(0, m, 0)])
        } else {
            None
        },
        Dimension::Z => if c.dims() == 3 && c.shift_ok(0, 0, m) {
            Some(seq![c.shifted(0, 0, m)])
        } else {
            None
        },
        Dimension::All => if c.shift_ok(m, m, m) {
            Some(c.all_shifted(m))
        } else {
            None
        },
    }
}

/// Both results, one after the other, where both exist.
pub open spec fn both(a: Option<Seq<Coordinate>>, b: Option<Seq<Coordinate>>) -> Option<
    Seq<Coordinate>,
> {
    match (a, b) {
        (Some(x), Some(y)) => Some(x + y),
        _ => None,
    }
}

/// The neighbours that `rule` gives to the cell `c`, with repetitions.
/// `None` where the rule cannot be applied: a circle, a compound without
/// children, an axis that `c` lacks, or a neighbour whose components are
/// not representable.
pub open spec fn rule_neighbors(rule: RuleModel, c: Coordinate) -> Option<Seq<Coordinate>>
    decreases rule, 0nat,
{
    match rule {
        RuleModel::DirectedEdge { dimension, magnitude } => edge(c, dimension, magnitude),
        RuleModel::UndirectedEdge { dimension, magnitude } => both(
            edge(c, dimension, magnitude),
            edge(c, dimension, -magnitude),
        ),
        RuleModel::UndirectedCircle { .. } => None,
        RuleModel::Compound(children) => if children.len() == 0 {
            None
        } else {
            chain(children, seq![c])
        },
    }
}

/// The cells that remain when the rules `children` are applied one after
/// another, the first to every cell of `work`, each further one to every
/// cell that the one before produced.
pub open spec fn chain(children: Seq<RuleModel>, work: Seq<Coordinate>) -> Option<Seq<Coordinate>>
    decreases children, 0nat,
{
    if children.len() == 0 {
        Some(work)
    } else {
        match spread(children[0], work) {
            Some(next) => chain(children.skip(1), next),
            None => None,
        }
    }
}

/// The neighbours that `rule` gives to each cell of `work`, in the order
/// of `work`.
pub open spec fn spread(rule: RuleModel, work: Seq<Coordinate>) -> Option<Seq<Coordinate>>
    decreases rule, 1nat + work.len(),
{
    if work.len() == 0 {
        Some(Seq::empty())
    } else {
        both(rule_neighbors(rule, work[0]), spread(rule, work.skip(1)))
    }
}

/// The neighbours that the rules of a neighbourhood give to the cell `c`:
/// those of each rule, in the order of the rules.
pub open spec fn all_neighbors(rules: Seq<RuleModel>, c: Coordinate) -> Option<Seq<Coordinate>>
    decreases rules.len(),
{
    if rules.len() == 0 {
        Some(Seq::empty())
    } else {
        both(rule_neighbors(rules[0], c), all_neighbors(rules.skip(1), c))
    }
}

/// For an undirected edge of magnitude `m` along a single axis, the
/// neighbours of `c` are exactly `c` moved by `m` and `c` moved by `-m`
/// along that axis.
pub proof fn lemma_undirected_edge_symmetric(c: Coordinate, dimension: Dimension, m: int)
    requires
        dimension != Dimension::All,
        edge(c, dimension, m) is Some,
        edge(c, dimension, -m) is Some,
    ensures
        all_neighbors(seq![RuleModel::UndirectedEdge { dimension, magnitude: m }], c) == Some(
            match dimension {
                Dimension::X => seq![c.shifted(m, 0, 0), c.shifted(-m, 0, 0)],
                Dimension::Y => seq![c.shifted(0, m, 0), c.shifted(0, -m, 0)],
                _ => seq![c.shifted(0, 0, m), c.shifted(0, 0, -m)],
            },
        ),
{
    let rule = RuleModel::UndirectedEdge { dimension, magnitude: m };
    let rules = seq![rule];
    assert(rules.skip(1) =~= Seq::<RuleModel>::empty());
    assert(all_neighbors(rules.skip(1), c) == Some(Seq::<Coordinate>::empty()));
    let pair = rule_neighbors(rule, c)->0;
    assert(pair + Seq::<Coordinate>::empty() =~= pair);
    match dimension {
        Dimension::X => {
            assert(pair =~= seq![c.shifted(m, 0, 0), c.shifted(-m, 0, 0)]);
        },
        Dimension::Y => {
            assert(pair =~= seq![c.shifted(0, m, 0), c.shifted(0, -m, 0)]);
        },
        _ => {
            assert(pair =~= seq![c.shifted(0, 0, m), c.shifted(0, 0, -m)]);
        },
    }
}

/// Whether a grid with `dims` axes has the dimension `dimension`; it has
/// `All` in any case.
pub open spec fn has_dimension(dims: nat, dimension: Dimension) -> bool {
    match dimension {
        Dimension::X => true,
        Dimension::Y => dims >= 2,
        Dimension::Z => dims >= 3,
        Dimension::All => true,
    }
}

/// Whether `rule` can be applied in a grid with `dims` axes: it is an
/// edge along an axis that the grid has, or a compound of at least one
/// such rule. A circle cannot be applied.
pub open spec fn rule_supported(rule: RuleModel, dims: nat) -> bool
    decreases rule,
{
    match rule {
        RuleModel::DirectedEdge { dimension, .. } => has_dimension(dims, dimension),
        RuleModel::UndirectedEdge { dimension, .. } => has_dimension(dims, dimension),
        RuleModel::UndirectedCircle { .. } => false,
        RuleModel::Compound(children) => children.len() > 0 && forall|i: int|
            0 <= i < children.len() ==> rule_supported(#[trigger] children[i], dims),
    }
}

/// Whether every one of `rules` can be applied in a grid with `dims` axes.
pub open spec fn rules_supported(rules: Seq<RuleModel>, dims: nat) -> bool {
    forall|i: int| 0 <= i < rules.len() ==> rule_supported(#[trigger] rules[i], dims)
}

/// The absolute value of an integer.
pub open spec fn distance(v: int) -> nat {
    if v < 0 {
        (-v) as nat
    } else {
        v as nat
    }
}

/// The farthest that `rule` reaches from a cell along any axis: the
/// magnitude of an edge, and for a compound the sum over its children.
pub open spec fn reach(rule: RuleModel) -> nat
    decreases rule, 0nat,
{
    match rule {
        RuleModel::DirectedEdge { magnitude, .. } => distance(magnitude),
        RuleModel::UndirectedEdge { magnitude, .. } => distance(magnitude),
        RuleModel::UndirectedCircle { magnitude, .. } => distance(magnitude),
        RuleModel::Compound(children) => total_reach(children),
    }
}

/// The sum of the reaches of `children`.
pub open spec fn total_reach(children: Seq<RuleModel>) -> nat
    decreases children, 0nat,
{
    if children.len() == 0 {
        0
    } else {
        reach(children[0]) + total_reach(children.skip(1))
    }
}

/// Whether every component of `c` can be moved by up to `r` in either
/// direction and stay representable.
pub open spec fn roomy(c: Coordinate, r: nat) -> bool {
    &&& fits(c.px() - r) && fits(c.px() + r)
    &&& fits(c.py() - r) && fits(c.py() + r)
    &&& fits(c.pz() - r) && fits(c.pz() + r)
}

/// Whether `n` has as many axes as `c` and differs from it by at most `r`
/// along every axis.
pub open spec fn near(c: Coordinate, n: Coordinate, r: nat) -> bool {
    &&& n.dims() == c.dims()
    &&& distance(n.px() - c.px()) <= r
    &&& distance(n.py() - c.py()) <= r
    &&& distance(n.pz() - c.pz()) <= r
}

/// An edge along an axis that a cell has reaches cells wherever there is
/// room for its magnitude, and each of them lies within that magnitude.
pub proof fn lemma_edge_applies(c: Coordinate, dimension: Dimension, m: int)
    requires
        has_dimension(c.dims(), dimension),
        roomy(c, distance(m)),
    ensures
        edge(c, dimension, m) is Some,
        forall|k: int|
            0 <= k < edge(c, dimension, m)->0.len() ==> near(
                c,
                #[trigger] edge(c, dimension, m)->0[k],
                distance(m),
            ),
{
    let r = distance(m);
    assert(-r <= m <= r);
    assert(fits(c.px() + m) && fits(c.py() + m) && fits(c.pz() + m));
    match dimension {
        Dimension::X => {
            assert(c.shift_ok(m, 0, 0));
            lemma_shifted_near(c, m, 0, 0, r);
        },
        Dimension::Y => {
            assert(c.shift_ok(0, m, 0));
            lemma_shifted_near(c, 0, m, 0, r);
        },
        Dimension::Z => {
            assert(c.shift_ok(0, 0, m));
            lemma_shifted_near(c, 0, 0, m, r);
        },
        Dimension::All => {
            assert(c.shift_ok(m, m, m));
            lemma_shifted_near(c, m, 0, 0, r);
            lemma_shifted_near(c, 0, m, 0, r);
            lemma_shifted_near(c, 0, 0, m, r);
        },
    }
}

/// A cell moved by at most `r` along every axis, where the moved
/// components are representable, lies within `r` of the cell.
pub proof fn lemma_shifted_near(c: Coordinate, dx: int, dy: int, dz: int, r: nat)
    requires
        c.shift_ok(dx, dy, dz),
        distance(dx) <= r,
        distance(dy) <= r,
        distance(dz) <= r,
    ensures
        near(c, c.shifted(dx, dy, dz), r),
{
    let n = c.shifted(dx, dy, dz);
    match c {
        Coordinate::Coordinate1D { x } => {
            assert(n.px() == x + dx);
        },
        Coordinate::Coordinate2D { x, y } => {
            assert(n.px() == x + dx);
            assert(n.py() == y + dy);
        },
        Coordinate::Coordinate3D { x, y, z } => {
            assert(n.px() == x + dx);
            assert(n.py() == y + dy);
            assert(n.pz() == z + dz);
        },
    }
}

/// A rule that can be applied in the grid of a cell gives the cell its
/// neighbours unless a component would leave the representable range;
/// every neighbour lies within the reach of the rule.
pub proof fn lemma_supported_rule_applies(rule: RuleModel, c: Coordinate)
    requires
        rule_supported(rule, c.dims()),
        roomy(c, reach(rule)),
    ensures
        rule_neighbors(rule, c) is Some,
        forall|k: int|
            0 <= k < rule_neighbors(rule, c)->0.len() ==> near(
                c,
                #[trigger] rule_neighbors(rule, c)->0[k],
                reach(rule),
            ),
    decreases rule, 0nat,
{
    match rule {
        RuleModel::DirectedEdge { dimension, magnitude } => {
            lemma_edge_applies(c, dimension, magnitude);
        },
        RuleModel::UndirectedEdge { dimension, magnitude } => {
            assert(distance(-magnitude) == distance(magnitude));
            lemma_edge_applies(c, dimension, magnitude);
            lemma_edge_applies(c, dimension, -magnitude);
            let there = edge(c, dimension, magnitude)->0;
            let back = edge(c, dimension, -magnitude)->0;
            assert(rule_neighbors(rule, c) == Some(there + back));
            assert forall|k: int| 0 <= k < (there + back).len() implies near(
                c,
                #[trigger] (there + back)[k],
                reach(rule),
            ) by {
                if k < there.len() {
                    assert((there + back)[k] == there[k]);
                } else {
                    assert((there + back)[k] == back[k - there.len()]);
                }
            }
        },
        RuleModel::UndirectedCircle { .. } => {},
        RuleModel::Compound(children) => {
            let start = seq![c];
            assert forall|k: int| 0 <= k < start.len() implies near(c, #[trigger] start[k], 0) by {
                assert(start[k] == c);
            }
            assert(reach(rule) == total_reach(children));
            lemma_supported_chain_applies(children, start, c, 0);
            assert(rule_neighbors(rule, c) == chain(children, start));
        },
    }
}

/// Rules that can be applied in the grid of a cell can be applied one
/// after another to cells near it, as far as there is room for the sum
/// of their reaches.
pub proof fn lemma_supported_chain_applies(
    children: Seq<RuleModel>,
    work: Seq<Coordinate>,
    origin: Coordinate,
    used: nat,
)
    requires
        forall|i: int| 0 <= i < children.len() ==> rule_supported(#[trigger] children[i], origin.dims()),
        forall|k: int| 0 <= k < work.len() ==> near(origin, #[trigger] work[k], used),
        roomy(origin, used + total_reach(children)),
    ensures
        chain(children, work) is Some,
        forall|k: int|
            0 <= k < chain(children, work)->0.len() ==> near(
                origin,
                #[trigger] chain(children, work)->0[k],
                used + total_reach(children),
            ),
    decreases children, 0nat,
{
    if children.len() > 0 {
        let rest = children.skip(1);
        assert(total_reach(children) == reach(children[0]) + total_reach(rest));
        lemma_supported_spread_applies(children[0], work, origin, used);
        let next = spread(children[0], work)->0;
        assert forall|i: int| 0 <= i < rest.len() implies rule_supported(
            #[trigger] rest[i],
            origin.dims(),
        ) by {
            assert(rest[i] == children[i + 1]);
        }
        lemma_supported_chain_applies(rest, next, origin, used + reach(children[0]));
    }
}

/// A rule that can be applied in the grid of a cell can be applied to
/// every cell near it, as far as there is room for its reach.
pub proof fn lemma_supported_spread_applies(
    rule: RuleModel,
    work: Seq<Coordinate>,
    origin: Coordinate,
    used: nat,
)
    requires
        rule_supported(rule, origin.dims()),
        forall|k: int| 0 <= k < work.len() ==> near(origin, #[trigger] work[k], used),
        roomy(origin, used + reach(rule)),
    ensures
        spread(rule, work) is Some,
        forall|k: int|
            0 <= k < spread(rule, work)->0.len() ==> near(
                origin,
                #[trigger] spread(rule, work)->0[k],
                used + reach(rule),
            ),
    decreases rule, 1nat + work.len(),
{
    if work.len() > 0 {
        let rest = work.skip(1);
        assert(near(origin, work[0], used));
        assert(roomy(work[0], reach(rule)));
        lemma_supported_rule_applies(rule, work[0]);
        assert forall|k: int| 0 <= k < rest.len() implies near(origin, #[trigger] rest[k], used) by {
            assert(rest[k] == work[k + 1]);
        }
        lemma_supported_spread_applies(rule, rest, origin, used);
        let here = rule_neighbors(rule, work[0])->0;
        let more = spread(rule, rest)->0;
        assert(spread(rule, work) == Some(here + more));
        assert forall|k: int| 0 <= k < (here + more).len() implies near(
            origin,
            #[trigger] (here + more)[k],
            used + reach(rule),
        ) by {
            if k < here.len() {
                assert((here + more)[k] == here[k]);
                assert(near(work[0], here[k], reach(rule)));
            } else {
                assert((here + more)[k] == more[k - here.len()]);
                assert(near(origin, more[k - here.len()], used + reach(rule)));
            }
        }
    }
}

/// A neighbourhood whose rules can be applied in the grid of a cell gives
/// the cell its neighbours unless a component would leave the
/// representable range: it does so wherever there is room for the reach
/// of each rule.
pub proof fn lemma_supported_neighborhood_applies(rules: Seq<RuleModel>, c: Coordinate)
    requires
        rules_supported(rules, c.dims()),
        forall|i: int| 0 <= i < rules.len() ==> roomy(c, reach(#[trigger] rules[i])),
    ensures
        all_neighbors(rules, c) is Some,
    decreases rules.len(),
{
    if rules.len() > 0 {
        let rest = rules.skip(1);
        lemma_supported_rule_applies(rules[0], c);
        assert forall|i: int| 0 <= i < rest.len() implies rule_supported(
            #[trigger] rest[i],
            c.dims(),
        ) && roomy(c, reach(rest[i])) by {
            assert(rest[i] == rules[i + 1]);
        }
        lemma_supported_neighborhood_applies(rest, c);
    }
}

fn dimension_exists(dims: usize, dimension: Dimension) -> (r: bool)
    ensures
        r == has_dimension(dims as nat, dimension),
{
    match dimension {
        Dimension::X => true,
        Dimension::Y => dims >= 2,
        Dimension::Z => dims >= 3,
        Dimension::All => true,
    }
}

fn supports_rule(rule: &NeighborhoodRule, dims: usize) -> (r: bool)
    ensures
        r == rule_supported(rule.model(), dims as nat),
    decreases rule,
{
    match rule {
        NeighborhoodRule::DirectedEdge { dimension, .. } => dimension_exists(dims, *dimension),
        NeighborhoodRule::UndirectedEdge { dimension, .. } => dimension_exists(dims, *dimension),
        NeighborhoodRule::UndirectedCircle { .. } => false,
        NeighborhoodRule::Compound(children) => {
            if children.len() == 0 {
                return false;
            }
            let ghost kids = rule.model()->Compound_0;
            let mut i: usize = 0;
            while i < children.len()
                invariant
                    i <= children.len(),
                    rule == NeighborhoodRule::Compound(*children),
                    kids == rule.model()->Compound_0,
                    kids.len() == children.len(),
                    forall|k: int| 0 <= k < i ==> rule_supported(#[trigger] kids[k], dims as nat),
                decreases children.len() - i,
            {
                assert(kids[i as int] == children[i as int].model());
                if !supports_rule(&children[i], dims) {
                    return false;
                }
                i += 1;
            }
            true
        },
    }
}

/// Every neighbour that a rule gives to a cell has as many axes as the
/// cell.
pub proof fn lemma_rule_neighbors_dims(rule: RuleModel, c: Coordinate)
    ensures
        rule_neighbors(rule, c) matches Some(s) ==> forall|k: int|
            0 <= k < s.len() ==> (#[trigger] s[k]).dims() == c.dims(),
    decreases rule, 0nat,
{
    match rule {
        RuleModel::Compound(children) => {
            if children.len() > 0 {
                lemma_chain_dims(children, seq![c], c.dims());
            }
        },
        _ => {},
    }
}

/// Applying rules one after another keeps the number of axes.
pub proof fn lemma_chain_dims(children: Seq<RuleModel>, work: Seq<Coordinate>, d: nat)
    requires
        forall|k: int| 0 <= k < work.len() ==> (#[trigger] work[k]).dims() == d,
    ensures
        chain(children, work) matches Some(s) ==> forall|k: int|
            0 <= k < s.len() ==> (#[trigger] s[k]).dims() == d,
    decreases children, 0nat,
{
    if children.len() > 0 {
        lemma_spread_dims(children[0], work, d);
        match spread(children[0], work) {
            Some(next) => {
                lemma_chain_dims(children.skip(1), next, d);
            },
            None => {},
        }
    }
}

/// Applying a rule to every cell of a sequence keeps the number of axes.
pub proof fn lemma_spread_dims(rule: RuleModel, work: Seq<Coordinate>, d: nat)
    requires
        forall|k: int| 0 <= k < work.len() ==> (#[trigger] work[k]).dims() == d,
    ensures
        spread(rule, work) matches Some(s) ==> forall|k: int|
            0 <= k < s.len() ==> (#[trigger] s[k]).dims() == d,
    decreases rule, 1nat + work.len(),
{
    if work.len() > 0 {
        lemma_rule_neighbors_dims(rule, work[0]);
        lemma_spread_dims(rule, work.skip(1), d);
    }
}

/// Every neighbour that a neighbourhood gives to a cell has as many axes
/// as the cell.
pub proof fn lemma_neighbors_dims(rules: Seq<RuleModel>, c: Coordinate)
    ensures
        all_neighbors(rules, c) matches Some(s) ==> forall|k: int|
            0 <= k < s.len() ==> (#[trigger] s[k]).dims() == c.dims(),
    decreases rules.len(),
{
    if rules.len() > 0 {
        lemma_rule_neighbors_dims(rules[0], c);
        lemma_neighbors_dims(rules.skip(1), c);
    }
}

fn axis_step(c: Coordinate, dimension: Dimension, m: i128, out: &mut Vec<Coordinate>) -> (ok: bool)
    requires
        -0x1_0000_0000_0000_0000 <= m <= 0x1_0000_0000_0000_0000,
    ensures
        match edge(c, dimension, m as int) {
            Some(s) => ok && final(out)@ == old(out)@ + s,
            None => !ok,
        },
{
    match dimension {
        Dimension::X => match c.translate(m, 0, 0) {
            Some(n) => {
                out.push(n);
                assert(out@ =~= old(out)@ + seq![n]);
                true
            },
            None => false,
        },
        Dimension::Y => {
            if c.dimensions() < 2 {
                return false;
            }
            match c.translate(0, m, 0) {
                Some(n) => {
                    out.push(n);
                    assert(out@ =~= old(out)@ + seq![n]);
                    true
                },
                None => false,
            }
        },
        Dimension::Z => {
            if c.dimensions() < 3 {
                return false;
            }
            match c.translate(0, 0, m) {
                Some(n) => {
                    out.push(n);
                    assert(out@ =~= old(out)@ + seq![n]);
                    true
                },
                None => false,
            }
        },
        Dimension::All => {
            let dims = c.dimensions();
            let along_x = c.translate(m, 0, 0);
            let along_y = if dims >= 2 {
                c.translate(0, m, 0)
            } else {
                along_x
            };
            let along_z = if dims >= 3 {
                c.translate(0, 0, m)
            } else {
                along_x
            };
            match (along_x, along_y, along_z) {
                (Some(nx), Some(ny), Some(nz)) => {
                    out.push(nx);
                    if dims >= 2 {
                        out.push(ny);
                    }
                    if dims >= 3 {
                        out.push(nz);
                    }
                    assert(out@ =~= old(out)@ + c.all_shifted(m as int));
                    true
                },
                _ => false,
            }
        },
    }
}

fn apply_rule(rule: &NeighborhoodRule, c: Coordinate, out: &mut Vec<Coordinate>) -> (ok: bool)
    ensures
        match rule_neighbors(rule.model(), c) {
            Some(s) => ok && final(out)@ == old(out)@ + s,
            None => !ok,
        },
    decreases rule,
{
    match rule {
        NeighborhoodRule::DirectedEdge { dimension, magnitude } => axis_step(
            c,
            *dimension,
            *magnitude as i128,
            out,
        ),
        NeighborhoodRule::UndirectedEdge { dimension, magnitude } => {
            let m: i128 = *magnitude as i128;
            let ghost start = out@;
            if !axis_step(c, *dimension, m, out) {
                return false;
            }
            if !axis_step(c, *dimension, -m, out) {
                return false;
            }
            proof {
                let a = edge(c, *dimension, m as int)->0;
                let b = edge(c, *dimension, -(m as int))->0;
                assert(out@ =~= start + (a + b));
            }
            true
        },
        NeighborhoodRule::UndirectedCircle { .. } => false,
        NeighborhoodRule::Compound(children) => {
            if children.len() == 0 {
                return false;
            }
            let ghost kids = rule.model()->Compound_0;
            let ghost target = chain(kids, seq![c]);
            assert(rule_neighbors(rule.model(), c) == target);
            let mut work: Vec<Coordinate> = Vec::new();
            work.push(c);
            assert(work@ =~= seq![c]);
            assert(kids.skip(0) =~= kids);
            let mut i: usize = 0;
            while i < children.len()
                invariant
                    i <= children.len(),
                    rule == NeighborhoodRule::Compound(*children),
                    kids == rule.model()->Compound_0,
                    kids.len() == children.len(),
                    chain(kids.skip(i as int), work@) == target,
                    rule_neighbors(rule.model(), c) == target,
                    *out == *old(out),
                decreases children.len() - i,
            {
                let child = &children[i];
                let ghost rest = kids.skip(i as int);
                assert(rest[0] == child.model());
                assert(rest.skip(1) =~= kids.skip(i + 1));
                let mut next: Vec<Coordinate> = Vec::new();
                let mut j: usize = 0;
                assert(work@.skip(0) =~= work@);
                assert(Seq::<Coordinate>::empty() + spread(child.model(), work@)->0 =~= spread(
                    child.model(),
                    work@,
                )->0);
                while j < work.len()
                    invariant
                        j <= work.len(),
                        rule == NeighborhoodRule::Compound(*children),
                        i < children.len(),
                        child == &children[i as int],
                        both(Some(next@), spread(child.model(), work@.skip(j as int))) == spread(
                            child.model(),
                            work@,
                        ),
                        rule_neighbors(rule.model(), c) == target,
                        spread(child.model(), work@) is None ==> target is None,
                    decreases work.len() - j,
                {
                    let ghost tail = work@.skip(j as int);
                    let ghost before = next@;
                    assert(tail[0] == work@[j as int]);
                    assert(tail.skip(1) =~= work@.skip(j + 1));
                    let ok = apply_rule(child, work[j], &mut next);
                    if !ok {
                        return false;
                    }
                    proof {
                        let here = rule_neighbors(child.model(), work@[j as int])->0;
                        match spread(child.model(), work@.skip(j + 1)) {
                            Some(more) => {
                                assert((before + here) + more =~= before + (here + more));
                            },
                            None => {},
                        }
                    }
                    j += 1;
                }
                proof {
                    assert(work@.skip(work.len() as int) =~= Seq::<Coordinate>::empty());
                    assert(next@ + Seq::<Coordinate>::empty() =~= next@);
                }
                work = next;
                i += 1;
            }
            assert(kids.skip(children.len() as int) =~= Seq::<RuleModel>::empty());
            let ghost start = out@;
            let mut k: usize = 0;
            while k < work.len()
                invariant
                    k <= work.len(),
                    out@ == start + work@.take(k as int),
                decreases work.len() - k,
            {
                out.push(work[k]);
                assert(out@ =~= start + work@.take(k + 1));
                k += 1;
            }
            assert(work@.take(work.len() as int) =~= work@);
            true
        },
    }
}

/// The neighbourhood operator: a sequence of rules that says which cells
/// are the neighbours of a cell.
pub struct Neighborhood {
    rules: Vec<NeighborhoodRule>,
}

impl Neighborhood {
    /// The rules of the neighbourhood, in order.
    pub closed spec fn rules(self) -> Seq<RuleModel> {
        models(self.rules@)
    }

    /// The neighbours of `c`, with repetitions; `None` where a rule cannot
    /// be applied to `c`.
    pub open spec fn neighbors_of(self, c: Coordinate) -> Option<Seq<Coordinate>> {
        all_neighbors(self.rules(), c)
    }

    pub fn new(rules: Vec<NeighborhoodRule>) -> (r: Neighborhood)
        ensures
            r.rules() == models(rules@),
    {
        Neighborhood { rules }
    }

    /// The neighbourhood of a block in a grid with `dims` axes; presets are
    /// expanded to their rules.
    pub fn from_block(block: NeighborhoodBlock, dims: usize) -> (r: Neighborhood)
        ensures
            r.rules() == block.rules_model(dims as nat),
    {
        Neighborhood::new(block.into_rules(dims))
    }

    /// Whether every rule of the neighbourhood can be applied in a grid
    /// with `dims` axes.
    pub fn supports(&self, dims: usize) -> (r: bool)
        ensures
            r == rules_supported(self.rules(), dims as nat),
    {
        let mut i: usize = 0;
        while i < self.rules.len()
            invariant
                i <= self.rules.len(),
                forall|k: int|
                    0 <= k < i ==> rule_supported(#[trigger] self.rules()[k], dims as nat),
            decreases self.rules.len() - i,
        {
            assert(self.rules()[i as int] == self.rules@[i as int].model());
            if !supports_rule(&self.rules[i], dims) {
                return false;
            }
            i += 1;
        }
        true
    }

    /// The neighbours of `starting_coordinate`, or `None` where a rule
    /// cannot be applied to it.
    pub fn try_neighbors(&self, starting_coordinate: Coordinate) -> (r: Option<Vec<Coordinate>>)
        ensures
            match r {
                Some(v) => self.neighbors_of(starting_coordinate) == Some(v@),
                None => self.neighbors_of(starting_coordinate) is None,
            },
    {
        let ghost target = self.neighbors_of(starting_coordinate);
        let mut out: Vec<Coordinate> = Vec::new();
        let mut i: usize = 0;
        assert(self.rules().skip(0) =~= self.rules());
        assert(Seq::<Coordinate>::empty() + target->0 =~= target->0);
        while i < self.rules.len()
            invariant
                i <= self.rules.len(),
                target == self.neighbors_of(starting_coordinate),
                both(Some(out@), all_neighbors(self.rules().skip(i as int), starting_coordinate))
                    == target,
            decreases self.rules.len() - i,
        {
            let ghost rest = self.rules().skip(i as int);
            let ghost before = out@;
            assert(rest[0] == self.rules@[i as int].model());
            assert(rest.skip(1) =~= self.rules().skip(i + 1));
            if !apply_rule(&self.rules[i], starting_coordinate, &mut out) {
                return None;
            }
            proof {
                let here = rule_neighbors(rest[0], starting_coordinate)->0;
                match all_neighbors(self.rules().skip(i + 1), starting_coordinate) {
                    Some(more) => {
                        assert((before + here) + more =~= before + (here + more));
                    },
                    None => {},
                }
            }
            i += 1;
        }
        proof {
            assert(self.rules().skip(self.rules.len() as int) =~= Seq::<RuleModel>::empty());
            assert(out@ + Seq::<Coordinate>::empty() =~= out@);
        }
        Some(out)
    }

    /// A cursor over the neighbours of `starting_coordinate`; every rule
    /// must be applicable to it.
    pub fn neighbors(&self, starting_coordinate: Coordinate) -> (r: NeighborhoodIter)
        requires
            self.neighbors_of(starting_coordinate) is Some,
        ensures
            Some(r.remaining()) == self.neighbors_of(starting_coordinate),
    {
        NeighborhoodIter::new(starting_coordinate, &self.rules)
    }
}

/// A cursor over the neighbours of a cell.
pub struct NeighborhoodIter {
    queue: Vec<Coordinate>,
    position: usize,
}

impl NeighborhoodIter {
    /// The neighbours that are still to come, in order.
    pub closed spec fn remaining(self) -> Seq<Coordinate> {
        if self.position <= self.queue@.len() {
            self.queue@.skip(self.position as int)
        } else {
            Seq::empty()
        }
    }

    /// A cursor over the neighbours that `rules` give to
    /// `starting_coordinate`; every rule must be applicable to it.
    pub fn new(starting_coordinate: Coordinate, rules: &Vec<NeighborhoodRule>) -> (r:
        NeighborhoodIter)
        requires
            all_neighbors(models(rules@), starting_coordinate) is Some,
        ensures
            Some(r.remaining()) == all_neighbors(models(rules@), starting_coordinate),
    {
        let ghost target = all_neighbors(models(rules@), starting_coordinate);
        let mut out: Vec<Coordinate> = Vec::new();
        let mut i: usize = 0;
        assert(models(rules@).skip(0) =~= models(rules@));
        assert(Seq::<Coordinate>::empty() + target->0 =~= target->0);
        while i < rules.len()
            invariant
                i <= rules.len(),
                target is Some,
                both(Some(out@), all_neighbors(models(rules@).skip(i as int), starting_coordinate))
                    == target,
            decreases rules.len() - i,
        {
            let ghost rest = models(rules@).skip(i as int);
            let ghost before = out@;
            assert(rest[0] == rules@[i as int].model());
            assert(rest.skip(1) =~= models(rules@).skip(i + 1));
            let ok = apply_rule(&rules[i], starting_coordinate, &mut out);
            proof {
                let here = rule_neighbors(rest[0], starting_coordinate)->0;
                match all_neighbors(models(rules@).skip(i + 1), starting_coordinate) {
                    Some(more) => {
                        assert((before + here) + more =~= before + (here + more));
                    },
                    None => {},
                }
            }
            i += 1;
        }
        proof {
            assert(models(rules@).skip(rules.len() as int) =~= Seq::<RuleModel>::empty());
            assert(out@ + Seq::<Coordinate>::empty() =~= out@);
            assert(out@.skip(0) =~= out@);
        }
        NeighborhoodIter { queue: out, position: 0 }
    }

    /// Yields the next neighbour, or `None` once every neighbour has been
    /// yielded.
    pub fn next(&mut self) -> (r: Option<Coordinate>)
        ensures
            match r {
                Some(c) => old(self).remaining().len() > 0 && c == old(self).remaining()[0]
                    && final(self).remaining() == old(self).remaining().skip(1),
                None => old(self).remaining().len() == 0 && final(self).remaining().len() == 0,
            },
    {
        if self.position < self.queue.len() {
            let c = self.queue[self.position];
            proof {
                assert(self.queue@.skip(self.position as int).skip(1) =~= self.queue@.skip(
                    self.position + 1,
                ));
            }
            self.position += 1;
            Some(c)
        } else {
            None
        }
    }

    /// Every neighbour that is still to come, in order.
    pub fn collect(self) -> (r: Vec<Coordinate>)
        ensures
            r@ == self.remaining(),
    {
        let mut out: Vec<Coordinate> = Vec::new();
        if self.position > self.queue.len() {
            return out;
        }
        let mut i: usize = self.position;
        assert(out@ =~= self.queue@.subrange(self.position as int, i as int));
        while i < self.queue.len()
            invariant
                self.position <= i <= self.queue.len(),
                out@ == self.queue@.subrange(self.position as int, i as int),
            decreases self.queue.len() - i,
        {
            out.push(self.queue[i]);
            assert(out@ =~= self.queue@.subrange(self.position as int, i + 1));
            i += 1;
        }
        assert(out@ =~= self.remaining());
        out
    }
}

} // verus!
