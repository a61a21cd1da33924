//! What a battle does to the two gene chains: the winner of each position
//! takes the loser's gene, a draw costs both theirs; and the proof that every
//! gene a side must give up is one it has.
use vstd::multiset::Multiset;
use vstd::prelude::*;

use crate::types::{
    battle_part, duel, duels, lemma_first_index_of, lemma_remove_first_multiset, remove_first,
    Winner,
};

verus! {

#[verifier::ext_equal]
/// The state of a battle: both gene chains, the genes each side won, and the
/// pairs of genes lost in draws.
pub struct BattleTally {
    pub challenger_gene: Seq<u8>,
    pub facer_gene: Seq<u8>,
    pub challenger_wins: Seq<u8>,
    pub facer_wins: Seq<u8>,
    pub draws: Seq<(u8, u8)>,
}

/// One position of a battle settled: the winner appends the loser's gene and
/// the loser gives up its first copy of it; in a draw both give up theirs.
pub open spec fn tally_step(t: BattleTally, w: Winner) -> BattleTally {
    match w {
        Winner::Challenger(f) => BattleTally {
            challenger_gene: t.challenger_gene.push(f as u8),
            facer_gene: remove_first(t.facer_gene, f as u8),
            challenger_wins: t.challenger_wins.push(f as u8),
            ..t
        },
        Winner::Facer(c) => BattleTally {
            facer_gene: t.facer_gene.push(c as u8),
            challenger_gene: remove_first(t.challenger_gene, c as u8),
            facer_wins: t.facer_wins.push(c as u8),
            ..t
        },
        Winner::NoneWin(c, f) => BattleTally {
            challenger_gene: remove_first(t.challenger_gene, c as u8),
            facer_gene: remove_first(t.facer_gene, f as u8),
            draws: t.draws.push((c as u8, f as u8)),
            ..t
        },
    }
}

/// The battle settled position by position, from the first.
pub open spec fn tally(cg: Seq<u8>, fg: Seq<u8>, ws: Seq<Winner>) -> BattleTally
    decreases ws.len(),
{
    if ws.len() == 0 {
        BattleTally {
            challenger_gene: cg,
            facer_gene: fg,
            challenger_wins: Seq::empty(),
            facer_wins: Seq::empty(),
            draws: Seq::empty(),
        }
    } else {
        tally_step(tally(cg, fg, ws.drop_last()), ws.last())
    }
}

/// The gene the challenger gives up at one position, if any.
pub open spec fn challenger_loss(w: Winner) -> Seq<u8> {
    match w {
        Winner::Challenger(_) => Seq::empty(),
        Winner::Facer(c) => seq![c as u8],
        Winner::NoneWin(c, _) => seq![c as u8],
    }
}

/// The gene the facer gives up at one position, if any.
pub open spec fn facer_loss(w: Winner) -> Seq<u8> {
    match w {
        Winner::Challenger(f) => seq![f as u8],
        Winner::Facer(_) => Seq::empty(),
        Winner::NoneWin(_, f) => seq![f as u8],
    }
}

/// The genes the challenger gives up, in order.
pub open spec fn challenger_losses(ws: Seq<Winner>) -> Seq<u8>
    decreases ws.len(),
{
    if ws.len() == 0 {
        Seq::empty()
    } else {
        challenger_loss(ws[0]) + challenger_losses(ws.drop_first())
    }
}

/// The genes the facer gives up, in order.
pub open spec fn facer_losses(ws: Seq<Winner>) -> Seq<u8>
    decreases ws.len(),
{
    if ws.len() == 0 {
        Seq::empty()
    } else {
        facer_loss(ws[0]) + facer_losses(ws.drop_first())
    }
}

/// Each side has every gene it must give up, counted with multiplicity.
pub open spec fn feasible(cg: Seq<u8>, fg: Seq<u8>, ws: Seq<Winner>) -> bool {
    &&& challenger_losses(ws).to_multiset().subset_of(cg.to_multiset())
    &&& facer_losses(ws).to_multiset().subset_of(fg.to_multiset())
}

/// Splitting the outcomes at `i` splits the genes each side gives up.
pub proof fn lemma_losses_split(ws: Seq<Winner>, i: int)
    requires
        0 <= i < ws.len(),
    ensures
        challenger_losses(ws.skip(i)) == challenger_loss(ws[i]) + challenger_losses(ws.skip(i + 1)),
        facer_losses(ws.skip(i)) == facer_loss(ws[i]) + facer_losses(ws.skip(i + 1)),
{
    assert(ws.skip(i).drop_first() =~= ws.skip(i + 1));
    assert(ws.skip(i)[0] == ws[i]);
}

/// Settling `i + 1` positions is settling `i` and then the next one.
pub proof fn lemma_tally_step(cg: Seq<u8>, fg: Seq<u8>, ws: Seq<Winner>, i: int)
    requires
        0 <= i < ws.len(),
    ensures
        tally(cg, fg, ws.take(i + 1)) == tally_step(tally(cg, fg, ws.take(i)), ws[i]),
{
    assert(ws.take(i + 1).drop_last() =~= ws.take(i));
}

/// Giving up the gene `g` that is due first: `g` is there, and what remains
/// due is still there after.
pub proof fn lemma_lose(cur: Seq<u8>, g: u8, rest: Seq<u8>)
    requires
        (seq![g] + rest).to_multiset().subset_of(cur.to_multiset()),
    ensures
        cur.contains(g),
        rest.to_multiset().subset_of(remove_first(cur, g).to_multiset()),
{
    broadcast use vstd::seq_lib::group_to_multiset_ensures;
    broadcast use vstd::multiset::group_multiset_axioms;

    vstd::seq_lib::lemma_multiset_commutative(seq![g], rest);
    assert(seq![g].to_multiset() =~= Multiset::<u8>::empty().insert(g)) by {
        assert(seq![g] =~= Seq::<u8>::empty().push(g));
    }
    assert(cur.to_multiset().count(g) >= 1);
    lemma_remove_first_multiset(cur, g);
    assert forall|v: u8|
        rest.to_multiset().count(v) <= #[trigger] remove_first(cur, g).to_multiset().count(v) by {
        assert((seq![g] + rest).to_multiset().count(v) <= cur.to_multiset().count(v));
    }
}

/// A position where nothing is due keeps what is due there.
pub proof fn lemma_keep(cur: Seq<u8>, rest: Seq<u8>)
    requires
        (Seq::<u8>::empty() + rest).to_multiset().subset_of(cur.to_multiset()),
    ensures
        rest.to_multiset().subset_of(cur.to_multiset()),
{
    assert(Seq::<u8>::empty() + rest =~= rest);
}

/// Winning a gene keeps what is due there.
pub proof fn lemma_gain(cur: Seq<u8>, g: u8, rest: Seq<u8>)
    requires
        rest.to_multiset().subset_of(cur.to_multiset()),
    ensures
        rest.to_multiset().subset_of(cur.push(g).to_multiset()),
{
    broadcast use vstd::seq_lib::group_to_multiset_ensures;
    broadcast use vstd::multiset::group_multiset_axioms;

    assert forall|v: u8|
        rest.to_multiset().count(v) <= #[trigger] cur.push(g).to_multiset().count(v) by {
        assert(cur.push(g).to_multiset() =~= cur.to_multiset().insert(g));
    }
}

/// Inclusion of multisets is transitive.
pub proof fn lemma_subset_trans(a: Multiset<u8>, b: Multiset<u8>, c: Multiset<u8>)
    requires
        a.subset_of(b),
        b.subset_of(c),
    ensures
        a.subset_of(c),
{
    assert forall|v: u8| a.count(v) <= #[trigger] c.count(v) by {
        assert(a.count(v) <= b.count(v));
    }
}

/// The genes each side gives up in a battle of two parts are genes of its
/// part.
pub proof fn lemma_duels_losses(cp: Seq<u8>, fp: Seq<u8>)
    requires
        cp.len() == fp.len(),
    ensures
        challenger_losses(duels(cp, fp)).to_multiset().subset_of(cp.to_multiset()),
        facer_losses(duels(cp, fp)).to_multiset().subset_of(fp.to_multiset()),
    decreases cp.len(),
{
    broadcast use vstd::seq_lib::group_to_multiset_ensures;
    broadcast use vstd::multiset::group_multiset_axioms;

    let ws = duels(cp, fp);
    if cp.len() == 0 {
        assert(challenger_losses(ws) =~= Seq::<u8>::empty());
        assert(facer_losses(ws) =~= Seq::<u8>::empty());
        assert(Seq::<u8>::empty().to_multiset() =~= Multiset::<u8>::empty());
    } else {
        let c0 = cp[0];
        let f0 = fp[0];
        lemma_duels_losses(cp.drop_first(), fp.drop_first());
        assert(ws.drop_first() =~= duels(cp.drop_first(), fp.drop_first()));
        assert(ws[0] == duel(c0, f0));
        let rc = challenger_losses(ws.drop_first());
        let rf = facer_losses(ws.drop_first());
        assert(cp.remove(0) =~= cp.drop_first());
        assert(fp.remove(0) =~= fp.drop_first());
        assert(cp.drop_first().to_multiset() =~= cp.to_multiset().remove(c0));
        assert(fp.drop_first().to_multiset() =~= fp.to_multiset().remove(f0));
        assert(cp.contains(c0));
        assert(fp.contains(f0));
        assert(cp.to_multiset().count(c0) >= 1);
        assert(fp.to_multiset().count(f0) >= 1);
        assert(seq![c0].to_multiset() =~= Multiset::<u8>::empty().insert(c0)) by {
            assert(seq![c0] =~= Seq::<u8>::empty().push(c0));
        }
        assert(seq![f0].to_multiset() =~= Multiset::<u8>::empty().insert(f0)) by {
            assert(seq![f0] =~= Seq::<u8>::empty().push(f0));
        }
        vstd::seq_lib::lemma_multiset_commutative(challenger_loss(ws[0]), rc);
        vstd::seq_lib::lemma_multiset_commutative(facer_loss(ws[0]), rf);
        assert(challenger_loss(ws[0]) =~= Seq::<u8>::empty() || challenger_loss(ws[0]) =~= seq![c0]);
        assert(facer_loss(ws[0]) =~= Seq::<u8>::empty() || facer_loss(ws[0]) =~= seq![f0]);
        assert(Seq::<u8>::empty().to_multiset() =~= Multiset::<u8>::empty());
        assert forall|v: u8|
            challenger_losses(ws).to_multiset().count(v) <= #[trigger] cp.to_multiset().count(
                v,
            ) by {
            assert(rc.to_multiset().count(v) <= cp.drop_first().to_multiset().count(v));
        }
        assert forall|v: u8|
            facer_losses(ws).to_multiset().count(v) <= #[trigger] fp.to_multiset().count(v) by {
            assert(rf.to_multiset().count(v) <= fp.drop_first().to_multiset().count(v));
        }
    }
}

/// The genes that take part in a battle are genes of the chain.
pub proof fn lemma_battle_part_genes(g: Seq<u8>, start: int, len: int)
    requires
        0 <= start <= g.len(),
        0 <= len <= g.len(),
    ensures
        battle_part(g, start, len).to_multiset().subset_of(g.to_multiset()),
{
    broadcast use vstd::multiset::group_multiset_axioms;

    let a = g.subrange(start, g.len() as int);
    let b = g.subrange(0, start);
    let t = a + b;
    vstd::seq_lib::lemma_multiset_commutative(a, b);
    vstd::seq_lib::lemma_multiset_commutative(b, a);
    assert(b + a =~= g);
    let p = t.subrange(0, len);
    let q = t.subrange(len, t.len() as int);
    vstd::seq_lib::lemma_multiset_commutative(p, q);
    assert(p + q =~= t);
    assert forall|v: u8| p.to_multiset().count(v) <= #[trigger] g.to_multiset().count(v) by {
        assert(t.to_multiset().count(v) == g.to_multiset().count(v));
    }
}

/// A battle between two chains over their battle parts is feasible.
pub proof fn lemma_battle_feasible(cg: Seq<u8>, fg: Seq<u8>, start: int, len: int)
    requires
        0 <= start <= cg.len(),
        0 <= len <= cg.len(),
        0 <= start <= fg.len(),
        0 <= len <= fg.len(),
    ensures
        feasible(
            cg,
            fg,
            duels(battle_part(cg, start, len), battle_part(fg, start, len)),
        ),
{
    let cp = battle_part(cg, start, len);
    let fp = battle_part(fg, start, len);
    lemma_duels_losses(cp, fp);
    lemma_battle_part_genes(cg, start, len);
    lemma_battle_part_genes(fg, start, len);
    lemma_subset_trans(
        challenger_losses(duels(cp, fp)).to_multiset(),
        cp.to_multiset(),
        cg.to_multiset(),
    );
    lemma_subset_trans(
        facer_losses(duels(cp, fp)).to_multiset(),
        fp.to_multiset(),
        fg.to_multiset(),
    );
}

/// The genes taken from both draw pairs of a tally, challenger's first.
pub open spec fn draw_genes(d: Seq<(u8, u8)>) -> Seq<u8>
    decreases d.len(),
{
    if d.len() == 0 {
        Seq::empty()
    } else {
        draw_genes(d.drop_last()).push(d.last().0).push(d.last().1)
    }
}

/// What a feasible battle keeps after `i` positions: the genes still due
/// are there, genes only change hands or are lost two by two in draws, and
/// every position is counted once.
pub proof fn lemma_tally_prefix(cg: Seq<u8>, fg: Seq<u8>, ws: Seq<Winner>, i: int)
    requires
        feasible(cg, fg, ws),
        0 <= i <= ws.len(),
    ensures
        ({
            let t = tally(cg, fg, ws.take(i));
            &&& challenger_losses(ws.skip(i)).to_multiset().subset_of(
                t.challenger_gene.to_multiset(),
            )
            &&& facer_losses(ws.skip(i)).to_multiset().subset_of(t.facer_gene.to_multiset())
            &&& t.challenger_gene.to_multiset().add(t.facer_gene.to_multiset()).add(
                draw_genes(t.draws).to_multiset(),
            ) == cg.to_multiset().add(fg.to_multiset())
            &&& t.challenger_wins.len() + t.facer_wins.len() + t.draws.len() == i
        }),
    decreases i,
{
    broadcast use vstd::seq_lib::group_to_multiset_ensures;
    broadcast use vstd::multiset::group_multiset_axioms;

    if i == 0 {
        assert(ws.take(0) =~= Seq::<Winner>::empty());
        assert(ws.skip(0) =~= ws);
        assert(draw_genes(Seq::<(u8, u8)>::empty()) =~= Seq::<u8>::empty());
        assert(Seq::<u8>::empty().to_multiset() =~= Multiset::<u8>::empty());
        assert(cg.to_multiset().add(fg.to_multiset()).add(Multiset::<u8>::empty()) =~= cg.to_multiset().add(
            fg.to_multiset(),
        ));
    } else {
        lemma_tally_prefix(cg, fg, ws, i - 1);
        lemma_losses_split(ws, i - 1);
        lemma_tally_step(cg, fg, ws, i - 1);
        let t = tally(cg, fg, ws.take(i - 1));
        let u = tally(cg, fg, ws.take(i));
        let rc = challenger_losses(ws.skip(i));
        let rf = facer_losses(ws.skip(i));
        let c = t.challenger_gene;
        let f = t.facer_gene;
        let dm = draw_genes(t.draws).to_multiset();
        match ws[i - 1] {
            Winner::Challenger(x) => {
                let g = x as u8;
                lemma_keep(c, rc);
                lemma_gain(c, g, rc);
                lemma_lose(f, g, rf);
                lemma_remove_first_multiset(f, g);
                assert(u.draws == t.draws);
                assert(c.push(g).to_multiset() =~= c.to_multiset().insert(g));
                assert(u.challenger_gene.to_multiset().add(u.facer_gene.to_multiset()).add(dm)
                    =~= c.to_multiset().add(f.to_multiset()).add(dm));
            },
            Winner::Facer(x) => {
                let g = x as u8;
                lemma_keep(f, rf);
                lemma_gain(f, g, rf);
                lemma_lose(c, g, rc);
                lemma_remove_first_multiset(c, g);
                assert(u.draws == t.draws);
                assert(f.push(g).to_multiset() =~= f.to_multiset().insert(g));
                assert(u.challenger_gene.to_multiset().add(u.facer_gene.to_multiset()).add(dm)
                    =~= c.to_multiset().add(f.to_multiset()).add(dm));
            },
            Winner::NoneWin(x, y) => {
                let a = x as u8;
                let b = y as u8;
                lemma_lose(c, a, rc);
                lemma_lose(f, b, rf);
                lemma_remove_first_multiset(c, a);
                lemma_remove_first_multiset(f, b);
                assert(u.draws == t.draws.push((a, b)));
                assert(u.draws.drop_last() =~= t.draws);
                let dg = draw_genes(t.draws);
                assert(draw_genes(u.draws) == dg.push(a).push(b));
                assert(dg.push(a).to_multiset() =~= dm.insert(a));
                assert(dg.push(a).push(b).to_multiset() =~= dm.insert(a).insert(b));
                assert(u.challenger_gene.to_multiset().add(u.facer_gene.to_multiset()).add(
                    draw_genes(u.draws).to_multiset(),
                ) =~= c.to_multiset().add(f.to_multiset()).add(dm));
            },
        }
    }
}

/// In a battle where each side has the genes it must give up, genes only
/// change hands: the winner of a position gains the gene its opponent
/// loses, and a draw takes one gene from each side. So the two chains
/// together with the genes lost in draws hold the genes the two chains held
/// before; each side loses one gene per position it does not win; and every
/// position is a win of one side or a draw.
pub proof fn lemma_battle_conserves_genes(cg: Seq<u8>, fg: Seq<u8>, ws: Seq<Winner>)
    requires
        feasible(cg, fg, ws),
    ensures
        ({
            let t = tally(cg, fg, ws);
            &&& t.challenger_gene.to_multiset().add(t.facer_gene.to_multiset()).add(
                draw_genes(t.draws).to_multiset(),
            ) == cg.to_multiset().add(fg.to_multiset())
            &&& t.challenger_gene.len() + t.facer_gene.len() + 2 * t.draws.len() == cg.len()
                + fg.len()
            &&& t.challenger_wins.len() + t.facer_wins.len() + t.draws.len() == ws.len()
        }),
{
    broadcast use vstd::seq_lib::group_to_multiset_ensures;
    broadcast use vstd::multiset::group_multiset_axioms;

    lemma_tally_prefix(cg, fg, ws, ws.len() as int);
    assert(ws.take(ws.len() as int) =~= ws);
    let t = tally(cg, fg, ws);
    lemma_draw_genes_len(t.draws);
    assert(cg.to_multiset().add(fg.to_multiset()).len() == cg.len() + fg.len());
}

/// The genes of the draw pairs are two per pair.
pub proof fn lemma_draw_genes_len(d: Seq<(u8, u8)>)
    ensures
        draw_genes(d).len() == 2 * d.len(),
    decreases d.len(),
{
    if d.len() > 0 {
        lemma_draw_genes_len(d.drop_last());
    }
}

} // verus!
