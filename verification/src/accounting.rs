//! The game's two counters, the swallowers alive and the genes alive, and
//! how the calls keep them equal to what is stored.
use vstd::prelude::*;

use crate::battle::{
    challenger_losses, facer_losses, feasible, lemma_battle_conserves_genes, lemma_battle_feasible,
    tally,
};
use crate::hashing::swallower_digest;
use crate::pallet::{
    after_safe_zone_check, battle_winners, burn_outcome, change_name_outcome,
    handle_battle_result_outcome, make_battle_outcome, mint_record_outcome, minted, owned, paid_in,
    sat_add, settle, AccountId, AssetId, Balance, BlockNumber, Origin, PalletView, SwallowerHash,
};
use crate::types::{TransInfo, first_index_of, lemma_first_index_of, remove_first, SwallowerView, Winner};

verus! {

/// The genes of the swallowers stored under `keys`.
pub open spec fn genes_under(
    m: Map<SwallowerHash, SwallowerView<AccountId, SwallowerHash>>,
    keys: Set<SwallowerHash>,
) -> nat
    decreases keys.len(),
    when keys.finite()
{
    if keys.len() == 0 {
        0
    } else {
        let k = keys.choose();
        m[k].gene.len() + genes_under(m, keys.remove(k))
    }
}

/// The genes of all stored swallowers.
pub open spec fn total_genes(s: PalletView) -> nat {
    genes_under(s.swallowers, s.swallowers.dom())
}

/// The swallower counter counts the stored swallowers.
pub open spec fn swallowers_counted(s: PalletView) -> bool {
    &&& s.swallowers.dom().finite()
    &&& s.swallower_amount == s.swallowers.dom().len()
}

/// The gene counter counts the genes of the stored swallowers.
pub open spec fn genes_counted(s: PalletView) -> bool {
    &&& s.swallowers.dom().finite()
    &&& s.gene_amount == total_genes(s)
}

/// Every stored swallower records the key it is stored under.
pub open spec fn keys_recorded(s: PalletView) -> bool {
    forall|h: SwallowerHash| #[trigger]
        s.swallowers.dom().contains(h) ==> s.swallowers[h].hash == Some(h)
}

/// The genes under `keys` are those under `a` and under the other keys.
pub proof fn lemma_genes_remove(
    m: Map<SwallowerHash, SwallowerView<AccountId, SwallowerHash>>,
    keys: Set<SwallowerHash>,
    a: SwallowerHash,
)
    requires
        keys.finite(),
        keys.contains(a),
    ensures
        genes_under(m, keys) == m[a].gene.len() + genes_under(m, keys.remove(a)),
    decreases keys.len(),
{
    let k = keys.choose();
    if k != a {
        lemma_genes_remove(m, keys.remove(k), a);
        lemma_genes_remove(m, keys.remove(a), k);
        assert(keys.remove(k).remove(a) =~= keys.remove(a).remove(k));
    }
}

/// Two stores whose swallowers under `keys` have as many genes hold as many
/// genes under `keys`.
pub proof fn lemma_genes_agree(
    m1: Map<SwallowerHash, SwallowerView<AccountId, SwallowerHash>>,
    m2: Map<SwallowerHash, SwallowerView<AccountId, SwallowerHash>>,
    keys: Set<SwallowerHash>,
)
    requires
        keys.finite(),
        forall|k: SwallowerHash| keys.contains(k) ==> #[trigger] m1[k].gene.len() == m2[k].gene.len(),
    ensures
        genes_under(m1, keys) == genes_under(m2, keys),
    decreases keys.len(),
{
    if keys.len() != 0 {
        let k = keys.choose();
        lemma_genes_agree(m1, m2, keys.remove(k));
    }
}

/// Storing `v` under `h` changes the genes by those of `v`, less those of
/// what was stored under `h`.
pub proof fn lemma_genes_insert(
    m: Map<SwallowerHash, SwallowerView<AccountId, SwallowerHash>>,
    h: SwallowerHash,
    v: SwallowerView<AccountId, SwallowerHash>,
)
    requires
        m.dom().finite(),
    ensures
        genes_under(m.insert(h, v), m.insert(h, v).dom()) + (if m.dom().contains(h) {
            m[h].gene.len()
        } else {
            0
        }) == genes_under(m, m.dom()) + v.gene.len(),
{
    let m2 = m.insert(h, v);
    let rest = m.dom().remove(h);
    assert(m2.dom().remove(h) =~= rest);
    lemma_genes_remove(m2, m2.dom(), h);
    lemma_genes_agree(m2, m, rest);
    if m.dom().contains(h) {
        lemma_genes_remove(m, m.dom(), h);
    } else {
        assert(rest =~= m.dom());
    }
}

/// Taking `h` away takes its genes away.
pub proof fn lemma_genes_take(
    m: Map<SwallowerHash, SwallowerView<AccountId, SwallowerHash>>,
    h: SwallowerHash,
)
    requires
        m.dom().finite(),
        m.dom().contains(h),
    ensures
        genes_under(m.remove(h), m.remove(h).dom()) + m[h].gene.len() == genes_under(m, m.dom()),
{
    let rest = m.dom().remove(h);
    assert(m.remove(h).dom() =~= rest);
    lemma_genes_remove(m, m.dom(), h);
    lemma_genes_agree(m.remove(h), m, rest);
}

/// Minting under a key that is not in use counts one more swallower and the
/// genes it was minted with.
pub proof fn lemma_mint_counts(
    s: PalletView,
    minter: AccountId,
    name: Seq<u8>,
    asset_id: AssetId,
    price: Balance,
    dna: Seq<u8>,
    bn: BlockNumber,
    max_owned: u32,
)
    requires
        mint_record_outcome(s, minter, name, asset_id, price, dna, bn, max_owned) is Ok,
        !s.swallowers.dom().contains(
            swallower_digest(minted(sat_add(s.swallower_no, 1), name, dna, minter)),
        ),
        s.swallower_amount < u64::MAX,
        s.gene_amount + dna.len() <= u64::MAX,
    ensures
        ({
            let s2 = mint_record_outcome(s, minter, name, asset_id, price, dna, bn, max_owned)->Ok_0;
            &&& swallowers_counted(s) ==> swallowers_counted(s2)
            &&& genes_counted(s) ==> genes_counted(s2)
            &&& keys_recorded(s) ==> keys_recorded(s2)
        }),
{
    let s2 = mint_record_outcome(s, minter, name, asset_id, price, dna, bn, max_owned)->Ok_0;
    let no = sat_add(s.swallower_no, 1);
    let h = swallower_digest(minted(no, name, dna, minter));
    let v = SwallowerView { hash: Some(h), ..minted(no, name, dna, minter) };
    assert(s2.swallowers == s.swallowers.insert(h, v));
    if s.swallowers.dom().finite() {
        assert(s2.swallowers.dom() =~= s.swallowers.dom().insert(h));
        lemma_genes_insert(s.swallowers, h, v);
    }
}

/// Burning a swallower counts one swallower less and takes its genes from
/// the gene count.
pub proof fn lemma_burn_counts(
    s: PalletView,
    hash: SwallowerHash,
    sender: AccountId,
    asset_id: AssetId,
    fee: Balance,
)
    requires
        burn_outcome(s, hash, sender, asset_id, fee) is Ok,
    ensures
        ({
            let s2 = burn_outcome(s, hash, sender, asset_id, fee)->Ok_0;
            &&& swallowers_counted(s) ==> swallowers_counted(s2)
            &&& genes_counted(s) ==> genes_counted(s2)
            &&& keys_recorded(s) ==> keys_recorded(s2)
        }),
{
    let s2 = burn_outcome(s, hash, sender, asset_id, fee)->Ok_0;
    assert(s2.swallowers == s.swallowers.remove(hash));
    if s.swallowers.dom().finite() {
        assert(s2.swallowers.dom() =~= s.swallowers.dom().remove(hash));
        lemma_genes_take(s.swallowers, hash);
    }
}

/// Renaming a swallower changes neither count.
pub proof fn lemma_rename_counts(
    s: PalletView,
    sender: AccountId,
    name: Seq<u8>,
    hash: SwallowerHash,
    asset_id: AssetId,
    fee: Balance,
)
    requires
        change_name_outcome(s, sender, name, hash, asset_id, fee) is Ok,
    ensures
        ({
            let s2 = change_name_outcome(s, sender, name, hash, asset_id, fee)->Ok_0;
            &&& swallowers_counted(s) ==> swallowers_counted(s2)
            &&& genes_counted(s) ==> genes_counted(s2)
            &&& keys_recorded(s) ==> keys_recorded(s2)
        }),
{
    let s2 = change_name_outcome(s, sender, name, hash, asset_id, fee)->Ok_0;
    let v = SwallowerView { name: name, ..s.swallowers[hash] };
    assert(s2.swallowers == s.swallowers.insert(hash, v));
    if s.swallowers.dom().finite() {
        assert(s2.swallowers.dom() =~= s.swallowers.dom());
        lemma_genes_insert(s.swallowers, hash, v);
    }
}

/// A fighter stored under its key, settled after a battle: burned if it has
/// no genes left, else stored again with its new genes; the other keys keep
/// what they held, and the swallower count stays right.
proof fn lemma_settle_counts(s: PalletView, sw: SwallowerView<AccountId, SwallowerHash>)
    requires
        settle(s, sw) is Ok,
        sw.hash is Some,
        s.swallowers.dom().contains(sw.hash->Some_0),
    ensures
        ({
            let (s1, h) = settle(s, sw)->Ok_0;
            &&& h == sw.hash->Some_0
            &&& swallowers_counted(s) ==> swallowers_counted(s1)
            &&& forall|x: SwallowerHash|
                x != h ==> (#[trigger] s1.swallowers.dom().contains(x) == s.swallowers.dom().contains(x)
                    && s1.swallowers[x] == s.swallowers[x])
            &&& sw.gene.len() > 0 ==> s1 == PalletView {
                swallowers: s.swallowers.insert(h, sw),
                ..s
            }
            &&& sw.gene.len() == 0 ==> s1.swallowers == s.swallowers.remove(h)
        }),
{
    let (s1, h) = settle(s, sw)->Ok_0;
    if sw.gene.len() == 0 {
        let owner = sw.owner->Some_0;
        let asset_id = s.asset_id->Some_0;
        assert(s1 == burn_outcome(s, h, owner, asset_id, 0)->Ok_0);
        assert(s1.swallowers == s.swallowers.remove(h));
        assert(s1.swallower_amount == crate::pallet::sat_sub(s.swallower_amount, 1));
        if s.swallowers.dom().finite() {
            assert(s1.swallowers.dom() =~= s.swallowers.dom().remove(h));
        }
    } else {
        assert(s1.swallowers.dom() =~= s.swallowers.dom());
    }
}

/// A battle between two swallowers stored under their keys keeps the
/// swallower count right, whether a fighter is burned or not. Where both
/// fighters keep genes, and each had the genes it gives up, it keeps the
/// gene count right too: genes change hands, and a draw takes one gene of
/// each fighter from the game and two from the count.
pub proof fn lemma_battle_counts(
    s: PalletView,
    ws: Seq<Winner>,
    c: SwallowerView<AccountId, SwallowerHash>,
    f: SwallowerView<AccountId, SwallowerHash>,
    bn: BlockNumber,
)
    requires
        handle_battle_result_outcome(s, ws, c, f, bn) is Ok,
        c.hash is Some,
        f.hash is Some,
        c.hash != f.hash,
        s.swallowers.dom().contains(c.hash->Some_0),
        s.swallowers.dom().contains(f.hash->Some_0),
    ensures
        ({
            let s2 = handle_battle_result_outcome(s, ws, c, f, bn)->Ok_0;
            let t = tally(c.gene, f.gene, ws);
            &&& swallowers_counted(s) ==> swallowers_counted(s2)
            &&& keys_recorded(s) ==> keys_recorded(s2)
            &&& genes_counted(s) && feasible(c.gene, f.gene, ws) && c.gene
                == s.swallowers[c.hash->Some_0].gene && f.gene == s.swallowers[f.hash->Some_0].gene
                && t.challenger_gene.len() > 0 && t.facer_gene.len() > 0 ==> genes_counted(s2)
        }),
{
    let ch = c.hash->Some_0;
    let fh = f.hash->Some_0;
    let t = tally(c.gene, f.gene, ws);
    let s0 = PalletView { gene_amount: crate::pallet::draw_genes_left(s.gene_amount, t.draws.len()), ..s };
    let c2 = SwallowerView { gene: t.challenger_gene, ..c };
    let f2 = SwallowerView { gene: t.facer_gene, ..f };
    lemma_settle_counts(s0, c2);
    let (s1, h1) = settle(s0, c2)->Ok_0;
    assert(s1.swallowers.dom().contains(fh));
    lemma_settle_counts(s1, f2);
    let (s2, h2) = settle(s1, f2)->Ok_0;
    let out = handle_battle_result_outcome(s, ws, c, f, bn)->Ok_0;
    assert(out.swallowers == s2.swallowers);
    assert(out.swallower_amount == s2.swallower_amount);
    assert(out.gene_amount == s2.gene_amount);
    if genes_counted(s) && feasible(c.gene, f.gene, ws) && c.gene == s.swallowers[ch].gene && f.gene
        == s.swallowers[fh].gene && t.challenger_gene.len() > 0 && t.facer_gene.len() > 0 {
        lemma_battle_conserves_genes(c.gene, f.gene, ws);
        let m = s.swallowers;
        lemma_genes_remove(m, m.dom(), ch);
        lemma_genes_remove(m, m.dom().remove(ch), fh);
        assert(s.gene_amount >= 2 * t.draws.len());
        lemma_genes_insert(m, ch, c2);
        assert(s1.swallowers == m.insert(ch, c2));
        assert(s1.swallowers.dom() =~= m.dom());
        lemma_genes_insert(s1.swallowers, fh, f2);
        assert(s2.swallowers == s1.swallowers.insert(fh, f2));
        assert(s2.swallowers.dom() =~= m.dom());
    }
}

/// Every swallower an account lists is stored and owned by that account, no
/// account lists a swallower twice, and every stored swallower is listed by
/// its owner.
pub open spec fn owners_consistent(s: PalletView) -> bool {
    &&& forall|who: AccountId, i: int|
        0 <= i < owned(s, who).len() ==> s.swallowers.dom().contains(#[trigger] owned(s, who)[i])
            && s.swallowers[owned(s, who)[i]].owner == Some(who)
    &&& forall|who: AccountId| (#[trigger] owned(s, who)).no_duplicates()
    &&& forall|h: SwallowerHash|
        #[trigger] s.swallowers.dom().contains(h) ==> s.swallowers[h].owner is Some && owned(
            s,
            s.swallowers[h].owner->Some_0,
        ).contains(h)
}

/// Taking the first `g` out of a list without repeats leaves a list without
/// repeats that holds every other element and no `g`.
proof fn lemma_remove_first_distinct<A>(l: Seq<A>, g: A)
    requires
        l.no_duplicates(),
        l.contains(g),
    ensures
        remove_first(l, g).no_duplicates(),
        forall|x: A| #[trigger] remove_first(l, g).contains(x) <==> (l.contains(x) && x != g),
{
    lemma_first_index_of(l, g);
    let k = first_index_of(l, g);
    l.remove_ensures(k);
    let r = l.remove(k);
    assert forall|x: A| #[trigger] r.contains(x) <==> (l.contains(x) && x != g) by {
        if r.contains(x) {
            let j = choose|j: int| 0 <= j < r.len() && r[j] == x;
            if j < k {
                assert(l[j] == x);
            } else {
                assert(l[j + 1] == x);
            }
        }
        if l.contains(x) && x != g {
            let j = choose|j: int| 0 <= j < l.len() && l[j] == x;
            if j < k {
                assert(r[j] == x);
            } else {
                assert(j != k);
                assert(r[j - 1] == x);
            }
        }
    }
    assert forall|i: int, j: int| 0 <= i < r.len() && 0 <= j < r.len() && i != j implies r[i]
        != r[j] by {
        let i2 = if i < k { i } else { i + 1 };
        let j2 = if j < k { j } else { j + 1 };
        assert(r[i] == l[i2] && r[j] == l[j2]);
    }
}

/// Burning a swallower its owner lists keeps every list right.
pub proof fn lemma_burn_keeps_owners(
    s: PalletView,
    hash: SwallowerHash,
    sender: AccountId,
    asset_id: AssetId,
    fee: Balance,
)
    requires
        burn_outcome(s, hash, sender, asset_id, fee) is Ok,
        owners_consistent(s),
    ensures
        owners_consistent(burn_outcome(s, hash, sender, asset_id, fee)->Ok_0),
{
    let s2 = burn_outcome(s, hash, sender, asset_id, fee)->Ok_0;
    let l = owned(s, sender);
    lemma_remove_first_distinct(l, hash);
    assert(owned(s2, sender) == remove_first(l, hash));
    assert(s2.swallowers == s.swallowers.remove(hash));
    let j = choose|j: int| 0 <= j < l.len() && l[j] == hash;
    assert(s.swallowers[hash].owner == Some(sender)) by {
        assert(l[j] == hash);
    }
    assert forall|who: AccountId, i: int| 0 <= i < owned(s2, who).len() implies s2.swallowers.dom().contains(
        #[trigger] owned(s2, who)[i],
    ) && s2.swallowers[owned(s2, who)[i]].owner == Some(who) by {
        let x = owned(s2, who)[i];
        if who == sender {
            assert(owned(s2, who).contains(x));
            let k = choose|k: int| 0 <= k < l.len() && l[k] == x;
            assert(l[k] == x);
        } else {
            assert(owned(s2, who) == owned(s, who));
            assert(owned(s, who)[i] == x);
        }
    }
    assert forall|who: AccountId| (#[trigger] owned(s2, who)).no_duplicates() by {
        if who != sender {
            assert(owned(s2, who) == owned(s, who));
        }
    }
    assert forall|h: SwallowerHash| #[trigger] s2.swallowers.dom().contains(h) implies s2.swallowers[h].owner is Some
        && owned(s2, s2.swallowers[h].owner->Some_0).contains(h) by {
        assert(s.swallowers.dom().contains(h));
        let who = s.swallowers[h].owner->Some_0;
        if who == sender {
            assert(remove_first(l, hash).contains(h));
        } else {
            assert(owned(s2, who) == owned(s, who));
        }
    }
}

/// Storing a swallower again under its key, with the same owner, keeps every
/// list right.
proof fn lemma_restore_keeps_owners(
    s: PalletView,
    h: SwallowerHash,
    v: SwallowerView<AccountId, SwallowerHash>,
)
    requires
        owners_consistent(s),
        s.swallowers.dom().contains(h),
        v.owner == s.swallowers[h].owner,
    ensures
        owners_consistent(PalletView { swallowers: s.swallowers.insert(h, v), ..s }),
{
    let s2 = PalletView { swallowers: s.swallowers.insert(h, v), ..s };
    assert forall|who: AccountId, i: int| 0 <= i < owned(s2, who).len() implies s2.swallowers.dom().contains(
        #[trigger] owned(s2, who)[i],
    ) && s2.swallowers[owned(s2, who)[i]].owner == Some(who) by {
        assert(owned(s2, who) == owned(s, who));
        assert(owned(s, who)[i] == owned(s2, who)[i]);
    }
    assert forall|who: AccountId| (#[trigger] owned(s2, who)).no_duplicates() by {
        assert(owned(s2, who) == owned(s, who));
    }
    assert forall|x: SwallowerHash| #[trigger] s2.swallowers.dom().contains(x) implies s2.swallowers[x].owner is Some
        && owned(s2, s2.swallowers[x].owner->Some_0).contains(x) by {
        assert(s.swallowers.dom().contains(x));
        assert(owned(s2, s.swallowers[x].owner->Some_0) == owned(s, s.swallowers[x].owner->Some_0));
    }
}

/// Minting under a key that is not in use lists the new swallower with its
/// minter and keeps every list right.
pub proof fn lemma_mint_keeps_owners(
    s: PalletView,
    minter: AccountId,
    name: Seq<u8>,
    asset_id: AssetId,
    price: Balance,
    dna: Seq<u8>,
    bn: BlockNumber,
    max_owned: u32,
)
    requires
        mint_record_outcome(s, minter, name, asset_id, price, dna, bn, max_owned) is Ok,
        !s.swallowers.dom().contains(
            swallower_digest(minted(sat_add(s.swallower_no, 1), name, dna, minter)),
        ),
        owners_consistent(s),
    ensures
        owners_consistent(mint_record_outcome(s, minter, name, asset_id, price, dna, bn, max_owned)->Ok_0),
{
    let s2 = mint_record_outcome(s, minter, name, asset_id, price, dna, bn, max_owned)->Ok_0;
    let no = sat_add(s.swallower_no, 1);
    let h = swallower_digest(minted(no, name, dna, minter));
    let l = owned(s, minter);
    assert(owned(s2, minter) == l.push(h));
    assert(!l.contains(h)) by {
        if l.contains(h) {
            let j = choose|j: int| 0 <= j < l.len() && l[j] == h;
            assert(l[j] == h);
        }
    }
    assert forall|who: AccountId, i: int| 0 <= i < owned(s2, who).len() implies s2.swallowers.dom().contains(
        #[trigger] owned(s2, who)[i],
    ) && s2.swallowers[owned(s2, who)[i]].owner == Some(who) by {
        let x = owned(s2, who)[i];
        if who == minter {
            if i < l.len() {
                assert(l[i] == x);
            }
        } else {
            assert(owned(s2, who) == owned(s, who));
            assert(owned(s, who)[i] == x);
        }
    }
    assert forall|who: AccountId| (#[trigger] owned(s2, who)).no_duplicates() by {
        if who != minter {
            assert(owned(s2, who) == owned(s, who));
        } else {
            assert forall|i: int, j: int|
                0 <= i < l.push(h).len() && 0 <= j < l.push(h).len() && i != j implies l.push(h)[i]
                != l.push(h)[j] by {
                if i < l.len() && j < l.len() {
                    assert(l[i] != l[j]);
                } else if i < l.len() {
                    assert(l[i] != h);
                } else if j < l.len() {
                    assert(l[j] != h);
                }
            }
        }
    }
    assert forall|x: SwallowerHash| #[trigger] s2.swallowers.dom().contains(x) implies s2.swallowers[x].owner is Some
        && owned(s2, s2.swallowers[x].owner->Some_0).contains(x) by {
        if x == h {
            assert(owned(s2, minter)[l.len() as int] == h);
        } else {
            assert(s.swallowers.dom().contains(x));
            let who = s.swallowers[x].owner->Some_0;
            if who == minter {
                let j = choose|j: int| 0 <= j < l.len() && l[j] == x;
                assert(l.push(h)[j] == x);
            } else {
                assert(owned(s2, who) == owned(s, who));
            }
        }
    }
}

/// Renaming a swallower keeps every list right.
pub proof fn lemma_rename_keeps_owners(
    s: PalletView,
    sender: AccountId,
    name: Seq<u8>,
    hash: SwallowerHash,
    asset_id: AssetId,
    fee: Balance,
)
    requires
        change_name_outcome(s, sender, name, hash, asset_id, fee) is Ok,
        owners_consistent(s),
    ensures
        owners_consistent(change_name_outcome(s, sender, name, hash, asset_id, fee)->Ok_0),
{
    let v = SwallowerView { name: name, ..s.swallowers[hash] };
    let s1 = PalletView { asset_amount: (s.asset_amount + fee) as u64, ..s };
    assert(owners_consistent(s1)) by {
        assert forall|who: AccountId| #[trigger] owned(s1, who) == owned(s, who) by {}
    }
    lemma_restore_keeps_owners(s1, hash, v);
    let s2 = PalletView { swallowers: s1.swallowers.insert(hash, v), ..s1 };
    let out = change_name_outcome(s, sender, name, hash, asset_id, fee)->Ok_0;
    assert(out.swallowers == s2.swallowers);
    assert(out.owner_swallower == s2.owner_swallower);
    assert forall|who: AccountId| #[trigger] owned(out, who) == owned(s2, who) by {}
}

/// A battle between two swallowers, each stored under its key with the
/// owner it fights for, keeps every list right: a fighter burned is listed
/// no more, one that keeps genes stays listed.
pub proof fn lemma_battle_keeps_owners(
    s: PalletView,
    ws: Seq<Winner>,
    c: SwallowerView<AccountId, SwallowerHash>,
    f: SwallowerView<AccountId, SwallowerHash>,
    bn: BlockNumber,
)
    requires
        handle_battle_result_outcome(s, ws, c, f, bn) is Ok,
        c.hash is Some,
        f.hash is Some,
        c.hash != f.hash,
        s.swallowers.dom().contains(c.hash->Some_0),
        s.swallowers.dom().contains(f.hash->Some_0),
        c.owner == s.swallowers[c.hash->Some_0].owner,
        f.owner == s.swallowers[f.hash->Some_0].owner,
        owners_consistent(s),
    ensures
        owners_consistent(handle_battle_result_outcome(s, ws, c, f, bn)->Ok_0),
{
    let fh = f.hash->Some_0;
    let t = tally(c.gene, f.gene, ws);
    let s0 = PalletView { gene_amount: crate::pallet::draw_genes_left(s.gene_amount, t.draws.len()), ..s };
    let c2 = SwallowerView { gene: t.challenger_gene, ..c };
    let f2 = SwallowerView { gene: t.facer_gene, ..f };
    assert(owners_consistent(s0)) by {
        assert forall|who: AccountId| #[trigger] owned(s0, who) == owned(s, who) by {}
    }
    lemma_settle_counts(s0, c2);
    lemma_settle_keeps_owners(s0, c2);
    let (s1, h1) = settle(s0, c2)->Ok_0;
    assert(s1.swallowers.dom().contains(fh));
    lemma_settle_keeps_owners(s1, f2);
    let (s2, h2) = settle(s1, f2)->Ok_0;
    let out = handle_battle_result_outcome(s, ws, c, f, bn)->Ok_0;
    assert(out.swallowers == s2.swallowers);
    assert(out.owner_swallower == s2.owner_swallower);
    assert forall|who: AccountId| #[trigger] owned(out, who) == owned(s2, who) by {}
}

/// Settling a fighter stored under its key with the owner it fights for
/// keeps every list right.
proof fn lemma_settle_keeps_owners(s: PalletView, sw: SwallowerView<AccountId, SwallowerHash>)
    requires
        settle(s, sw) is Ok,
        sw.hash is Some,
        s.swallowers.dom().contains(sw.hash->Some_0),
        sw.owner == s.swallowers[sw.hash->Some_0].owner,
        owners_consistent(s),
    ensures
        owners_consistent(settle(s, sw)->Ok_0.0),
{
    let h = sw.hash->Some_0;
    if sw.gene.len() == 0 {
        lemma_burn_keeps_owners(s, h, sw.owner->Some_0, s.asset_id->Some_0, 0);
    } else {
        lemma_restore_keeps_owners(s, h, sw);
    }
}

/// A battle of two different swallowers, as `make_battle` fights it, keeps
/// the recorded keys, the swallower count and the owner lists right; where
/// both fighters keep genes, the gene count too.
pub proof fn lemma_make_battle_counts(
    s: PalletView,
    origin: Origin,
    challenger: SwallowerHash,
    facer: SwallowerHash,
    decimals: u8,
    balance: Balance,
    random0: u8,
    bn: BlockNumber,
)
    requires
        make_battle_outcome(s, origin, challenger, facer, decimals, balance, random0, bn) is Ok,
        challenger != facer,
        keys_recorded(s),
    ensures
        ({
            let s2 = make_battle_outcome(
                s,
                origin,
                challenger,
                facer,
                decimals,
                balance,
                random0,
                bn,
            )->Ok_0;
            let t = tally(
                s.swallowers[challenger].gene,
                s.swallowers[facer].gene,
                battle_winners(
                    s.swallowers[challenger],
                    s.swallowers[facer],
                    random0,
                    s.swallower_config.max_challenge_length,
                ),
            );
            &&& keys_recorded(s2)
            &&& swallowers_counted(s) ==> swallowers_counted(s2)
            &&& owners_consistent(s) ==> owners_consistent(s2)
            &&& genes_counted(s) && t.challenger_gene.len() > 0 && t.facer_gene.len() > 0
                ==> genes_counted(s2)
        }),
{
    let c = s.swallowers[challenger];
    let f = s.swallowers[facer];
    let max = s.swallower_config.max_challenge_length;
    let ws = battle_winners(c, f, random0, max);
    let fee = (crate::pallet::sat_mul(
        crate::pallet::gene_price_of(s, decimals)->Ok_0,
        s.swallower_config.challenge_fee_ratio as u64,
    ) / 100) as u64;
    let sp = after_safe_zone_check(after_safe_zone_check(s, challenger, bn), facer, bn);
    let ti = TransInfo {
        asset_id: s.asset_id->Some_0,
        sender: origin->Signed_0,
        manager: s.manager,
        fee,
    };
    let fought = handle_battle_result_outcome(sp, ws, c, f, bn)->Ok_0;
    let out = make_battle_outcome(s, origin, challenger, facer, decimals, balance, random0, bn)->Ok_0;
    assert(out == paid_in(fought, ti)->Ok_0);
    assert(out.swallowers == fought.swallowers);
    assert(out.swallower_amount == fought.swallower_amount);
    assert(out.gene_amount == fought.gene_amount);
    assert(sp.swallowers == s.swallowers);
    assert forall|who: AccountId| #[trigger] owned(sp, who) == owned(s, who) by {}
    // The positions of the battle: each fighter has the genes it gives up.
    let ml0 = if c.gene.len() <= f.gene.len() {
        c.gene.len()
    } else {
        f.gene.len()
    };
    let ml = if ml0 <= max {
        ml0
    } else {
        max as nat
    };
    if ml > 0 {
        let start = (random0 as nat) % ml;
        lemma_battle_feasible(c.gene, f.gene, start as int, ml as int);
    } else {
        assert(ws =~= Seq::<Winner>::empty());
        assert(challenger_losses(ws) =~= Seq::<u8>::empty());
        assert(facer_losses(ws) =~= Seq::<u8>::empty());
        broadcast use vstd::seq_lib::group_to_multiset_ensures;
        broadcast use vstd::multiset::group_multiset_axioms;

        assert(Seq::<u8>::empty().to_multiset() =~= vstd::multiset::Multiset::<u8>::empty());
    }
    assert(feasible(c.gene, f.gene, ws));
    lemma_battle_counts(sp, ws, c, f, bn);
    if owners_consistent(s) {
        lemma_battle_keeps_owners(sp, ws, c, f, bn);
    }
    assert forall|who: AccountId| #[trigger] owned(out, who) == owned(fought, who) by {}
}

/// After a battle the loser is protected from the battle's block for the
/// automatic protection period: the facer where the challenger won more
/// positions than the facer, the challenger otherwise. The winner's
/// protection is not extended: if it is protected after the battle, it was
/// so before, until the same block.
pub proof fn lemma_battle_protects_loser(
    s: PalletView,
    ws: Seq<Winner>,
    c: SwallowerView<AccountId, SwallowerHash>,
    f: SwallowerView<AccountId, SwallowerHash>,
    bn: BlockNumber,
)
    requires
        handle_battle_result_outcome(s, ws, c, f, bn) is Ok,
        c.hash is Some,
        f.hash is Some,
        c.hash != f.hash,
    ensures
        ({
            let s2 = handle_battle_result_outcome(s, ws, c, f, bn)->Ok_0;
            let t = tally(c.gene, f.gene, ws);
            let won = t.challenger_wins.len() > t.facer_wins.len();
            let loser = if won {
                f.hash->Some_0
            } else {
                c.hash->Some_0
            };
            let winner = if won {
                c.hash->Some_0
            } else {
                f.hash->Some_0
            };
            let period = s.protect_zone_config.auto_enter_safe_zone_block_number;
            &&& s2.safe_zone.dom().contains(loser)
            &&& s2.safe_zone[loser].start_block == bn
            &&& s2.safe_zone[loser].end_block == (if bn + period > u64::MAX {
                u64::MAX as int
            } else {
                bn + period
            })
            &&& s2.safe_zone.dom().contains(winner) ==> s.safe_zone.dom().contains(winner)
                && s2.safe_zone[winner] == s.safe_zone[winner]
        }),
{
    let ch = c.hash->Some_0;
    let fh = f.hash->Some_0;
    let t = tally(c.gene, f.gene, ws);
    let s0 = PalletView { gene_amount: crate::pallet::draw_genes_left(s.gene_amount, t.draws.len()), ..s };
    let c2 = SwallowerView { gene: t.challenger_gene, ..c };
    let f2 = SwallowerView { gene: t.facer_gene, ..f };
    let (s1, h1) = settle(s0, c2)->Ok_0;
    let (s2, h2) = settle(s1, f2)->Ok_0;
    assert(h1 == ch && h2 == fh);
    assert(s1.safe_zone == s.safe_zone || s1.safe_zone == s.safe_zone.remove(ch));
    assert(s2.safe_zone == s1.safe_zone || s2.safe_zone == s1.safe_zone.remove(fh));
}

} // verus!
