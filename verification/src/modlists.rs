//! The three curated mod lists, by Modrinth project identifier, and the
//! selection of mods that the chosen lists make up.
use crate::sync::strs;
use vstd::prelude::*;
use vstd::string::*;

verus! {

/// The performance list: sodium, lithium, phosphor, lazydfu, ferrite-core,
/// krypton, immediatelyfast, c2me-fabric, noisium.
pub open spec fn vanilla_ids() -> Seq<Seq<char>> {
    seq![
        "AANobbMI"@, "gvQqBUqZ"@, "hEOCdOgW"@, "hvFnDODi"@, "uXXizFIs"@, "fQEb0iXm"@,
        "5ZwdcRci"@, "VSNURh3q"@, "KuNKN7d2"@,
    ]
}

/// The visual list: effective, lambdynamiclights, not-enough-animations,
/// ears, indium, lambdabettergrass, continuity, iris, distanthorizons,
/// fabric-api, cloth-config.
pub open spec fn visual_ids() -> Seq<Seq<char>> {
    seq![
        "pcPXJeZi"@, "yBW8D80W"@, "MPCX6s5C"@, "mfzaZK3Z"@, "Orvt0mRa"@, "2Uev7LdA"@,
        "1IjD5062"@, "YL57xq9U"@, "uCdwusMi"@, "P7dR8mSH"@, "9s6osm5g"@,
    ]
}

/// The resource-pack parity list: puzzle, animatica, indium,
/// cull-less-leaves, continuity, lambdabettergrass, cit-resewn,
/// entitytexturefeatures, fabric-api.
pub open spec fn optifine_ids() -> Seq<Seq<char>> {
    seq![
        "3IuO68q1"@, "PRN43VSY"@, "Orvt0mRa"@, "iG6ZHsUV"@, "1IjD5062"@, "2Uev7LdA"@,
        "otVJckYQ"@, "BVzZfTc1"@, "P7dR8mSH"@,
    ]
}

/// The identifiers of the chosen lists, one after the other (with repeats
/// where two lists share a mod).
pub open spec fn chosen_ids(modlist: (bool, bool, bool)) -> Seq<Seq<char>> {
    (if modlist.0 { vanilla_ids() } else { Seq::empty() }) + (if modlist.1 {
        visual_ids()
    } else {
        Seq::empty()
    }) + (if modlist.2 { optifine_ids() } else { Seq::empty() })
}

/// Owned copies of a list of string slices.
fn to_strings(items: &[&str]) -> (r: Vec<String>)
    ensures
        strs(r@) == items@.map_values(|s: &str| s@),
{
    let mut r: Vec<String> = Vec::new();
    let mut i: usize = 0;
    while i < items.len()
        invariant
            i <= items@.len(),
            strs(r@) == items@.take(i as int).map_values(|s: &str| s@),
        decreases items@.len() - i,
    {
        let ghost before = strs(r@);
        r.push(String::from_str(items[i]));
        assert(strs(r@) =~= before.push(items@[i as int]@));
        assert(items@.take(i + 1) =~= items@.take(i as int).push(items@[i as int]));
        assert(strs(r@) =~= items@.take(i + 1).map_values(|s: &str| s@));
        i = i + 1;
    }
    assert(items@.take(items@.len() as int) =~= items@);
    r
}

/// The performance list.
pub fn vanilla() -> (r: Vec<String>)
    ensures
        strs(r@) == vanilla_ids(),
{
    let items: [&str; 9] = [
        "AANobbMI", "gvQqBUqZ", "hEOCdOgW", "hvFnDODi", "uXXizFIs", "fQEb0iXm", "5ZwdcRci",
        "VSNURh3q", "KuNKN7d2",
    ];
    let r = to_strings(&items);
    assert(strs(r@) =~= vanilla_ids());
    r
}

/// The visual list.
pub fn visual() -> (r: Vec<String>)
    ensures
        strs(r@) == visual_ids(),
{
    let items: [&str; 11] = [
        "pcPXJeZi", "yBW8D80W", "MPCX6s5C", "mfzaZK3Z", "Orvt0mRa", "2Uev7LdA", "1IjD5062",
        "YL57xq9U", "uCdwusMi", "P7dR8mSH", "9s6osm5g",
    ];
    let r = to_strings(&items);
    assert(strs(r@) =~= visual_ids());
    r
}

/// The resource-pack parity list.
pub fn optifine() -> (r: Vec<String>)
    ensures
        strs(r@) == optifine_ids(),
{
    let items: [&str; 9] = [
        "3IuO68q1", "PRN43VSY", "Orvt0mRa", "iG6ZHsUV", "1IjD5062", "2Uev7LdA", "otVJckYQ",
        "BVzZfTc1", "P7dR8mSH",
    ];
    let r = to_strings(&items);
    assert(strs(r@) =~= optifine_ids());
    r
}

/// Whether a list of strings holds one with the same text.
fn holds(v: &Vec<String>, x: &String) -> (r: bool)
    ensures
        r == strs(v@).contains(x@),
{
    let mut i: usize = 0;
    while i < v.len()
        invariant
            i <= v@.len(),
            forall|j: int| 0 <= j < i ==> v@[j]@ != x@,
        decreases v@.len() - i,
    {
        if v[i] == *x {
            assert(strs(v@)[i as int] == x@);
            return true;
        }
        i = i + 1;
    }
    assert forall|j: int| 0 <= j < strs(v@).len() implies strs(v@)[j] != x@ by {
        assert(strs(v@)[j] == v@[j]@);
    }
    false
}

/// Adds to `out` the strings of `items` that it does not hold yet.
fn add_new(out: &mut Vec<String>, items: Vec<String>)
    requires
        strs(old(out)@).no_duplicates(),
    ensures
        strs(final(out)@).no_duplicates(),
        strs(final(out)@).to_set() == strs(old(out)@).to_set() + strs(items@).to_set(),
{
    let ghost start = strs(out@).to_set();
    let mut i: usize = 0;
    while i < items.len()
        invariant
            i <= items@.len(),
            strs(out@).no_duplicates(),
            strs(out@).to_set() == start + strs(items@.take(i as int)).to_set(),
        decreases items@.len() - i,
    {
        let x = &items[i];
        let ghost before = strs(out@);
        assert(strs(items@.take(i + 1)) =~= strs(items@.take(i as int)).push(x@));
        if !holds(out, x) {
            out.push(x.clone());
            assert(strs(out@) =~= before.push(x@));
            proof {
                before.lemma_push_to_set_commute(x@);
            }
        } else {
            assert(before.to_set().contains(x@));
        }
        proof {
            strs(items@.take(i as int)).lemma_push_to_set_commute(x@);
        }
        assert(strs(out@).to_set() =~= start + strs(items@.take(i + 1)).to_set());
        i = i + 1;
    }
    assert(items@.take(items@.len() as int) =~= items@);
}

/// The mods that the chosen lists make up, each once. The flags choose the
/// performance, visual and resource-pack parity lists, in that order.
pub fn selected_mods(modlist: &(bool, bool, bool)) -> (r: Vec<String>)
    ensures
        strs(r@).no_duplicates(),
        strs(r@).to_set() == chosen_ids(*modlist).to_set(),
        selection_law(*modlist, strs(r@).to_set()),
{
    let mut r: Vec<String> = Vec::new();
    let ghost e = Seq::<Seq<char>>::empty();
    assert(strs(r@) =~= e);
    if modlist.0 {
        add_new(&mut r, vanilla());
    }
    let ghost s0 = if modlist.0 { vanilla_ids() } else { e };
    assert(strs(r@).to_set() =~= s0.to_set());
    if modlist.1 {
        add_new(&mut r, visual());
    }
    let ghost s1 = if modlist.1 { visual_ids() } else { e };
    assert(strs(r@).to_set() =~= s0.to_set() + s1.to_set());
    if modlist.2 {
        add_new(&mut r, optifine());
    }
    let ghost s2 = if modlist.2 { optifine_ids() } else { e };
    assert(strs(r@).to_set() =~= s0.to_set() + s1.to_set() + s2.to_set());
    proof {
        vstd::seq_lib::seq_to_set_distributes_over_add(s0, s1);
        vstd::seq_lib::seq_to_set_distributes_over_add(s0 + s1, s2);
    }
    assert(chosen_ids(*modlist) == s0 + s1 + s2);
    proof {
        lemma_selection_is_union_of_chosen(*modlist);
    }
    r
}

} // verus!

verus! {

/// Each chosen list is wholly in the selection, and the selection holds
/// nothing but mods of chosen lists, whatever the other flags are.
pub open spec fn selection_law(modlist: (bool, bool, bool), sel: Set<Seq<char>>) -> bool {
    &&& modlist.0 ==> vanilla_ids().to_set().subset_of(sel)
    &&& modlist.1 ==> visual_ids().to_set().subset_of(sel)
    &&& modlist.2 ==> optifine_ids().to_set().subset_of(sel)
    &&& forall|x: Seq<char>|
        #[trigger] sel.contains(x) ==> (modlist.0 && vanilla_ids().contains(x)) || (modlist.1
            && visual_ids().contains(x)) || (modlist.2 && optifine_ids().contains(x))
}

/// The mods that the chosen lists make up: every mod of each chosen list,
/// and no mod of a list left out (unless another chosen list has it).
pub proof fn lemma_selection_is_union_of_chosen(modlist: (bool, bool, bool))
    ensures
        selection_law(modlist, chosen_ids(modlist).to_set()),
{
    let e = Seq::<Seq<char>>::empty();
    let s0 = if modlist.0 { vanilla_ids() } else { e };
    let s1 = if modlist.1 { visual_ids() } else { e };
    let s2 = if modlist.2 { optifine_ids() } else { e };
    vstd::seq_lib::seq_to_set_distributes_over_add(s0, s1);
    vstd::seq_lib::seq_to_set_distributes_over_add(s0 + s1, s2);
    assert(chosen_ids(modlist) == s0 + s1 + s2);
    let sel = chosen_ids(modlist).to_set();
    assert(sel == s0.to_set() + s1.to_set() + s2.to_set());
    assert forall|x: Seq<char>| #[trigger] sel.contains(x) implies (modlist.0 && vanilla_ids().contains(x))
        || (modlist.1 && visual_ids().contains(x)) || (modlist.2 && optifine_ids().contains(x)) by {
        if s0.to_set().contains(x) {
        } else if s1.to_set().contains(x) {
        } else {
            assert(s2.to_set().contains(x));
        }
    }
}

} // verus!
