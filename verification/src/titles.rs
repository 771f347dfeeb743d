//! Which titles of the save table have an icon file waiting for them.
//!
//! A title identifier is 64 bits: the high half names the category of the
//! title, the low half the title within it. Icon files are named by the low
//! half, in hexadecimal, with the extension `icn`. A title is listed when it
//! is an application and a file of its name is there.

use crate::home_menu::save_data::SaveData;
use vstd::prelude::*;

verus! {

/// The category of applications: the high half of their identifiers.
pub const APPLICATION_CATEGORY: u32 = 0x0004_0000;

/// The high 32 bits of a title identifier.
pub open spec fn category(id: u64) -> u32 {
    (id / 0x1_0000_0000) as u32
}

/// The low 32 bits of a title identifier: the name of its icon file.
pub open spec fn icon_id(id: u64) -> u32 {
    (id % 0x1_0000_0000) as u32
}

/// The title is an application and `icons` holds its icon identifier.
pub open spec fn is_listed(id: u64, icons: Seq<u32>) -> bool {
    category(id) == APPLICATION_CATEGORY && icons.contains(icon_id(id))
}

/// The listed titles of `titles`, slot by slot: a title is taken as often
/// as it occurs and in the order of its slots.
pub open spec fn listed_titles(titles: Seq<u64>, icons: Seq<u32>) -> Seq<u64>
    decreases titles.len(),
{
    if titles.len() == 0 {
        Seq::empty()
    } else if is_listed(titles.last(), icons) {
        listed_titles(titles.drop_last(), icons).push(titles.last())
    } else {
        listed_titles(titles.drop_last(), icons)
    }
}

/// The high 32 bits of a title identifier.
pub fn title_category(id: u64) -> (r: u32)
    ensures
        r == category(id),
{
    (id / 0x1_0000_0000) as u32
}

/// The low 32 bits of a title identifier.
pub fn title_icon_id(id: u64) -> (r: u32)
    ensures
        r == icon_id(id),
{
    (id % 0x1_0000_0000) as u32
}

/// Whether `icons` holds `id`.
pub fn has_icon(icons: &[u32], id: u32) -> (r: bool)
    ensures
        r == icons@.contains(id),
{
    let mut i: usize = 0;
    while i < icons.len()
        invariant
            i <= icons@.len(),
            forall|j: int| 0 <= j < i ==> icons@[j] != id,
        decreases icons@.len() - i,
    {
        if icons[i] == id {
            return true;
        }
        i += 1;
    }
    false
}

/// The listed titles among `titles`, in slot order and without removing
/// repeats.
pub fn cross_reference_slots(titles: &[u64], icons: &[u32]) -> (r: Vec<u64>)
    ensures
        r@ == listed_titles(titles@, icons@),
{
    let mut out: Vec<u64> = Vec::new();
    let mut i: usize = 0;
    assert(titles@.take(0) =~= Seq::<u64>::empty());
    while i < titles.len()
        invariant
            i <= titles@.len(),
            out@ == listed_titles(titles@.take(i as int), icons@),
        decreases titles@.len() - i,
    {
        let id = titles[i];
        proof {
            let next = titles@.take(i + 1);
            assert(next.drop_last() =~= titles@.take(i as int));
            assert(next.last() == id);
        }
        if title_category(id) == APPLICATION_CATEGORY && has_icon(icons, title_icon_id(id)) {
            out.push(id);
        }
        i += 1;
    }
    assert(titles@.take(i as int) =~= titles@);
    out
}

/// The titles of the save table that are applications and have an icon file
/// in `icons`, in slot order and without removing repeats.
pub fn cross_reference(save: &SaveData, icons: &[u32]) -> (r: Vec<u64>)
    ensures
        r@ == listed_titles(save.titles@, icons@),
{
    cross_reference_slots(&save.titles, icons)
}

/// The listing keeps the order of the slots and every occurrence: there are
/// slots, strictly rising, one for each entry of the listing, whose titles
/// are the entries in order, and every slot with a listed title is among
/// them.
pub proof fn lemma_listing_follows_slots(titles: Seq<u64>, icons: Seq<u32>) -> (slots: Seq<int>)
    ensures
        slots.len() == listed_titles(titles, icons).len(),
        forall|k: int|
            0 <= k < slots.len() ==> 0 <= #[trigger] slots[k] < titles.len() && titles[slots[k]]
                == listed_titles(titles, icons)[k],
        forall|k: int, l: int| 0 <= k < l < slots.len() ==> slots[k] < slots[l],
        forall|j: int|
            0 <= j < titles.len() && is_listed(#[trigger] titles[j], icons) ==> slots.contains(j),
    decreases titles.len(),
{
    if titles.len() == 0 {
        Seq::empty()
    } else {
        let rest = titles.drop_last();
        let last = titles.len() - 1;
        let inner = lemma_listing_follows_slots(rest, icons);
        assert forall|k: int| 0 <= k < inner.len() implies titles[#[trigger] inner[k]]
            == rest[inner[k]] by {}
        if is_listed(titles.last(), icons) {
            let slots = inner.push(last);
            assert forall|j: int|
                0 <= j < titles.len() && is_listed(
                    #[trigger] titles[j],
                    icons,
                ) implies slots.contains(j) by {
                if j < last {
                    assert(rest[j] == titles[j]);
                    let k = choose|k: int| 0 <= k < inner.len() && inner[k] == j;
                    assert(slots[k] == j);
                } else {
                    assert(slots[inner.len() as int] == j);
                }
            }
            slots
        } else {
            assert forall|j: int|
                0 <= j < titles.len() && is_listed(
                    #[trigger] titles[j],
                    icons,
                ) implies inner.contains(j) by {
                assert(rest[j] == titles[j]);
            }
            inner
        }
    }
}

/// Every entry of the listing is an application whose icon identifier is in
/// `icons`.
pub proof fn lemma_listing_holds_listed_only(titles: Seq<u64>, icons: Seq<u32>)
    ensures
        forall|k: int|
            0 <= k < listed_titles(titles, icons).len() ==> is_listed(
                #[trigger] listed_titles(titles, icons)[k],
                icons,
            ),
    decreases titles.len(),
{
    if titles.len() > 0 {
        let rest = listed_titles(titles.drop_last(), icons);
        lemma_listing_holds_listed_only(titles.drop_last(), icons);
        assert forall|k: int| 0 <= k < listed_titles(titles, icons).len() implies is_listed(
            #[trigger] listed_titles(titles, icons)[k],
            icons,
        ) by {
            if k < rest.len() {
                assert(listed_titles(titles, icons)[k] == rest[k]);
            }
        }
    }
}

/// A title of another category is never in the listing, whether or not
/// `icons` holds its low half.
pub proof fn lemma_other_category_excluded(titles: Seq<u64>, icons: Seq<u32>, id: u64)
    requires
        category(id) != APPLICATION_CATEGORY,
    ensures
        !listed_titles(titles, icons).contains(id),
{
    lemma_listing_holds_listed_only(titles, icons);
}

/// A title whose icon file is missing is never in the listing.
pub proof fn lemma_missing_icon_excluded(titles: Seq<u64>, icons: Seq<u32>, id: u64)
    requires
        !icons.contains(icon_id(id)),
    ensures
        !listed_titles(titles, icons).contains(id),
{
    lemma_listing_holds_listed_only(titles, icons);
}

} // verus!
