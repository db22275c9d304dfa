use vstd::prelude::*;

use crate::agent::{capacity_in, held_within, spec_add_resource, AgentInventory};
use crate::employment::select;
use crate::str_map::{quantity_in, StrMap};

verus! {

/// How many ticks a transaction counts toward demand.
pub const TRANSACTION_WINDOW_TICKS: u64 = 24;

/// A seller's offer of a resource. The price is carried in the caller's number type `P`
/// and never computed with here.
#[derive(Debug, Clone)]
pub struct MarketListing<P> {
    pub seller_id: String,
    pub resource: String,
    pub quantity: u32,
    pub price: P,
    pub original_quantity: u32,
}

/// A completed sale. Prices are carried in the caller's number type `P`.
#[derive(Debug, Clone)]
pub struct MarketTransaction<P> {
    pub buyer_id: String,
    pub seller_id: String,
    pub resource: String,
    pub quantity: u32,
    pub price: P,
    pub total_cost: P,
    pub tick: u64,
}

/// Whether the listing at `i` is the first of the seller for the resource.
pub open spec fn first_listing_of<P>(s: Seq<MarketListing<P>>, seller: Seq<char>, resource: Seq<char>, i: int) -> bool {
    &&& 0 <= i < s.len()
    &&& s[i].seller_id@ == seller && s[i].resource@ == resource
    &&& forall|j: int| 0 <= j < i ==> !((#[trigger] s[j]).seller_id@ == seller && s[j].resource@ == resource)
}

/// Whether the seller has a listing for the resource.
pub open spec fn has_listing<P>(s: Seq<MarketListing<P>>, seller: Seq<char>, resource: Seq<char>) -> bool {
    exists|i: int| 0 <= i < s.len() && (#[trigger] s[i]).seller_id@ == seller && s[i].resource@ == resource
}

/// No seller has two listings for the same resource.
pub open spec fn one_listing_each<P>(s: Seq<MarketListing<P>>) -> bool {
    forall|i: int, j: int|
        0 <= i < s.len() && 0 <= j < s.len() && i != j ==> !((#[trigger] s[i]).seller_id@ == (#[trigger] s[j]).seller_id@
            && s[i].resource@ == s[j].resource@)
}

/// The quantity offered for a resource across all listings.
pub open spec fn listed_quantity<P>(s: Seq<MarketListing<P>>, resource: Seq<char>) -> int
    decreases s.len(),
{
    if s.len() == 0 {
        0
    } else {
        listed_quantity(s.drop_last(), resource) + if s.last().resource@ == resource {
            s.last().quantity as int
        } else {
            0
        }
    }
}

/// Whether a transaction still counts toward demand at `tick`.
pub open spec fn is_recent<P>(tick: u64) -> spec_fn(MarketTransaction<P>) -> bool {
    |t: MarketTransaction<P>| t.tick + TRANSACTION_WINDOW_TICKS >= tick
}

/// Offers `quantity` of `resource` from `seller_id` at `price`. A seller that already
/// lists the resource has its first such listing topped up, both in quantity and in
/// original quantity, and repriced; otherwise a new listing is added. Returns whether a
/// new listing was added.
pub fn post_listing<P>(
    listings: &mut Vec<MarketListing<P>>,
    seller_id: &str,
    resource: &str,
    quantity: u32,
    price: P,
) -> (created: bool)
    requires
        forall|i: int|
            first_listing_of(old(listings)@, seller_id@, resource@, i) ==> old(listings)@[i].quantity + quantity
                <= u32::MAX && old(listings)@[i].original_quantity + quantity <= u32::MAX,
    ensures
        created == !has_listing(old(listings)@, seller_id@, resource@),
        created ==> {
            &&& final(listings)@.len() == old(listings)@.len() + 1
            &&& final(listings)@.drop_last() == old(listings)@
            &&& final(listings)@.last().seller_id@ == seller_id@
            &&& final(listings)@.last().resource@ == resource@
            &&& final(listings)@.last().quantity == quantity
            &&& final(listings)@.last().original_quantity == quantity
            &&& final(listings)@.last().price == price
        },
        !created ==> exists|i: int|
            {
                &&& first_listing_of(old(listings)@, seller_id@, resource@, i)
                &&& final(listings)@.len() == old(listings)@.len()
                &&& final(listings)@[i].seller_id == old(listings)@[i].seller_id
                &&& final(listings)@[i].resource == old(listings)@[i].resource
                &&& final(listings)@[i].quantity == old(listings)@[i].quantity + quantity
                &&& final(listings)@[i].original_quantity == old(listings)@[i].original_quantity + quantity
                &&& final(listings)@[i].price == price
                &&& forall|j: int|
                    0 <= j < old(listings)@.len() && j != i ==> #[trigger] final(listings)@[j] == old(listings)@[j]
            },
        one_listing_each(old(listings)@) ==> one_listing_each(final(listings)@),
        listed_quantity(final(listings)@, resource@) == listed_quantity(old(listings)@, resource@) + quantity,
        forall|r: Seq<char>| r != resource@ ==> #[trigger] listed_quantity(final(listings)@, r) == listed_quantity(old(listings)@, r),
{
    let seller = seller_id.to_owned();
    let name = resource.to_owned();
    let ghost before = listings@;
    let mut i: usize = 0;
    while i < listings.len()
        invariant
            i <= listings@.len(),
            listings@ == before,
            before == old(listings)@,
            seller@ == seller_id@,
            name@ == resource@,
            forall|j: int| 0 <= j < i ==> !((#[trigger] before[j]).seller_id@ == seller_id@ && before[j].resource@ == resource@),
            forall|j: int|
                first_listing_of(before, seller_id@, resource@, j) ==> before[j].quantity + quantity <= u32::MAX
                    && before[j].original_quantity + quantity <= u32::MAX,
        decreases listings@.len() - i,
    {
        if listings[i].seller_id == seller && listings[i].resource == name {
            assert(first_listing_of(before, seller_id@, resource@, i as int));
            let mut listing = listings.remove(i);
            listing.quantity = listing.quantity + quantity;
            listing.original_quantity = listing.original_quantity + quantity;
            listing.price = price;
            listings.insert(i, listing);
            proof {
                let s = listings@;
                assert forall|j: int| 0 <= j < before.len() && j != i implies #[trigger] s[j] == before[j] by {}
                assert forall|a: int, b: int|
                    one_listing_each(before) && 0 <= a < s.len() && 0 <= b < s.len() && a != b implies !((#[trigger] s[a]).seller_id@
                        == (#[trigger] s[b]).seller_id@ && s[a].resource@ == s[b].resource@) by {
                    assert(s[a].seller_id == before[a].seller_id && s[a].resource == before[a].resource);
                    assert(s[b].seller_id == before[b].seller_id && s[b].resource == before[b].resource);
                }
                lemma_listed_quantity_update(before, i as int, s[i as int]);
                assert(s =~= before.update(i as int, s[i as int]));
            }
            return false;
        }
        i = i + 1;
    }
    proof {
        assert forall|k: int| 0 <= k < before.len() implies !((#[trigger] before[k]).seller_id@ == seller_id@
            && before[k].resource@ == resource@) by {}
    }
    listings.push(MarketListing { seller_id: seller, resource: name, quantity, price, original_quantity: quantity });
    proof {
        let s = listings@;
        assert(s.drop_last() =~= before);
        assert forall|a: int, b: int|
            one_listing_each(before) && 0 <= a < s.len() && 0 <= b < s.len() && a != b implies !((#[trigger] s[a]).seller_id@
                == (#[trigger] s[b]).seller_id@ && s[a].resource@ == s[b].resource@) by {
            if a < before.len() && b < before.len() {
                assert(s[a] == before[a] && s[b] == before[b]);
            } else if a == before.len() {
                assert(s[b] == before[b]);
            } else {
                assert(s[a] == before[a]);
            }
        }
    }
    true
}

/// Moves a seller's whole stock of `resource` from its inventory onto the market at
/// `price` (through `post_listing`): the seller's first listing of the resource is topped
/// up and repriced, or else a new listing is added. Returns the quantity moved and whether
/// a new listing was made; with nothing in stock, nothing changes. What leaves the inventory arrives in
/// the listings: their sum for the resource is unchanged.
pub fn list_stock<P>(
    inventory: &mut StrMap<u32>,
    listings: &mut Vec<MarketListing<P>>,
    seller_id: &str,
    resource: &str,
    price: P,
) -> (r: (u32, bool))
    requires
        forall|i: int|
            first_listing_of(old(listings)@, seller_id@, resource@, i) ==> old(listings)@[i].quantity
                + quantity_in(old(inventory)@, resource@) <= u32::MAX && old(listings)@[i].original_quantity
                + quantity_in(old(inventory)@, resource@) <= u32::MAX,
    ensures
        r.0 == quantity_in(old(inventory)@, resource@),
        r.0 == 0 ==> !r.1 && final(inventory)@ == old(inventory)@ && final(listings)@ == old(listings)@,
        r.0 > 0 ==> r.1 == !has_listing(old(listings)@, seller_id@, resource@) && final(inventory)@
            == old(inventory)@.remove(resource@),
        r.0 > 0 && r.1 ==> {
            &&& final(listings)@.len() == old(listings)@.len() + 1
            &&& final(listings)@.drop_last() == old(listings)@
            &&& final(listings)@.last().seller_id@ == seller_id@
            &&& final(listings)@.last().resource@ == resource@
            &&& final(listings)@.last().quantity == r.0
            &&& final(listings)@.last().original_quantity == r.0
            &&& final(listings)@.last().price == price
        },
        r.0 > 0 && !r.1 ==> exists|i: int|
            {
                &&& first_listing_of(old(listings)@, seller_id@, resource@, i)
                &&& final(listings)@.len() == old(listings)@.len()
                &&& final(listings)@[i].seller_id == old(listings)@[i].seller_id
                &&& final(listings)@[i].resource == old(listings)@[i].resource
                &&& final(listings)@[i].quantity == old(listings)@[i].quantity + r.0
                &&& final(listings)@[i].original_quantity == old(listings)@[i].original_quantity + r.0
                &&& final(listings)@[i].price == price
                &&& forall|j: int|
                    0 <= j < old(listings)@.len() && j != i ==> #[trigger] final(listings)@[j] == old(listings)@[j]
            },
        quantity_in(final(inventory)@, resource@) == 0,
        listed_quantity(final(listings)@, resource@) == listed_quantity(old(listings)@, resource@) + r.0,
        quantity_in(final(inventory)@, resource@) + listed_quantity(final(listings)@, resource@)
            == quantity_in(old(inventory)@, resource@) + listed_quantity(old(listings)@, resource@),
        forall|k: Seq<char>| k != resource@ ==> #[trigger] quantity_in(final(inventory)@, k) == quantity_in(old(inventory)@, k),
        forall|k: Seq<char>| k != resource@ ==> #[trigger] listed_quantity(final(listings)@, k) == listed_quantity(old(listings)@, k),
        one_listing_each(old(listings)@) ==> one_listing_each(final(listings)@),
{
    let quantity = inventory.quantity(resource);
    if quantity == 0 {
        return (0, false);
    }
    let created = post_listing(listings, seller_id, resource, quantity, price);
    inventory.remove(resource);
    (quantity, created)
}

/// Sells up to `quantity` from the listing at `index` to a buyer: the buyer takes what its
/// inventory accepts (`AgentInventory::add_resource`) and the listing gives up exactly
/// that. Returns the quantity moved. For a buyer within its capacities, what leaves the
/// listing arrives in the buyer's inventory.
pub fn sell_from_listing<P>(
    listings: &mut Vec<MarketListing<P>>,
    index: usize,
    buyer: &mut AgentInventory,
    quantity: u32,
) -> (moved: u32)
    requires
        index < old(listings)@.len(),
        quantity <= old(listings)@[index as int].quantity,
    ensures
        ({
            let (after, (_, actual)) = spec_add_resource(
                old(buyer).resources@,
                old(buyer).capacity@,
                old(listings)@[index as int].resource@,
                quantity,
            );
            final(buyer).resources@ == after && moved == actual
        }),
        moved <= quantity,
        final(buyer).capacity@ == old(buyer).capacity@,
        old(buyer).within_capacity() ==> final(buyer).within_capacity(),
        final(listings)@.len() == old(listings)@.len(),
        final(listings)@[index as int].seller_id == old(listings)@[index as int].seller_id,
        final(listings)@[index as int].resource == old(listings)@[index as int].resource,
        final(listings)@[index as int].price == old(listings)@[index as int].price,
        final(listings)@[index as int].original_quantity == old(listings)@[index as int].original_quantity,
        final(listings)@[index as int].quantity == old(listings)@[index as int].quantity - moved,
        forall|j: int| 0 <= j < old(listings)@.len() && j != index ==> #[trigger] final(listings)@[j] == old(listings)@[j],
        old(buyer).within_capacity() ==> ({
            let res = old(listings)@[index as int].resource@;
            quantity_in(final(buyer).resources@, res) + listed_quantity(final(listings)@, res)
                == quantity_in(old(buyer).resources@, res) + listed_quantity(old(listings)@, res)
        }),
        forall|r: Seq<char>| r != old(listings)@[index as int].resource@ ==> #[trigger] listed_quantity(final(listings)@, r) == listed_quantity(old(listings)@, r),
        one_listing_each(old(listings)@) ==> one_listing_each(final(listings)@),
{
    let ghost before = listings@;
    let ghost res = before[index as int].resource@;
    let (_, moved) = buyer.add_resource(listings[index].resource.as_str(), quantity);
    proof {
        let current = quantity_in(old(buyer).resources@, res);
        let cap = capacity_in(old(buyer).capacity@, res);
        if old(buyer).within_capacity() && old(buyer).resources@.contains_key(res) {
            assert(old(buyer).resources@[res] <= cap);
        }
        if old(buyer).within_capacity() {
            assert(current <= cap);
            assert(quantity_in(buyer.resources@, res) == current + moved);
        }
    }
    let mut listing = listings.remove(index);
    listing.quantity = listing.quantity - moved;
    listings.insert(index, listing);
    proof {
        let s = listings@;
        assert forall|j: int| 0 <= j < before.len() && j != index implies #[trigger] s[j] == before[j] by {}
        assert forall|a: int, b: int|
            one_listing_each(before) && 0 <= a < s.len() && 0 <= b < s.len() && a != b implies !((#[trigger] s[a]).seller_id@
                == (#[trigger] s[b]).seller_id@ && s[a].resource@ == s[b].resource@) by {
            assert(s[a].seller_id == before[a].seller_id && s[a].resource == before[a].resource);
            assert(s[b].seller_id == before[b].seller_id && s[b].resource == before[b].resource);
        }
        lemma_listed_quantity_update(before, index as int, s[index as int]);
        assert(s =~= before.update(index as int, s[index as int]));
    }
    moved
}

/// Replacing one listing changes the listed quantity of its resource by the change in
/// its quantity, and of no other resource.
proof fn lemma_listed_quantity_update<P>(s: Seq<MarketListing<P>>, i: int, l: MarketListing<P>)
    requires
        0 <= i < s.len(),
        l.resource@ == s[i].resource@,
    ensures
        listed_quantity(s.update(i, l), l.resource@) == listed_quantity(s, l.resource@) - s[i].quantity + l.quantity,
        forall|r: Seq<char>| r != l.resource@ ==> #[trigger] listed_quantity(s.update(i, l), r) == listed_quantity(s, r),
    decreases s.len(),
{
    let u = s.update(i, l);
    if i < s.len() - 1 {
        lemma_listed_quantity_update(s.drop_last(), i, l);
        assert(u.drop_last() =~= s.drop_last().update(i, l));
        assert(u.last() == s.last());
        assert forall|r: Seq<char>| r != l.resource@ implies #[trigger] listed_quantity(u, r) == listed_quantity(s, r) by {
            assert(listed_quantity(s.drop_last().update(i, l), r) == listed_quantity(s.drop_last(), r));
        }
    } else {
        assert(u.drop_last() =~= s.drop_last());
        assert(u.last() == l);
        assert(s.last() == s[i]);
        assert forall|r: Seq<char>| r != l.resource@ implies #[trigger] listed_quantity(u, r) == listed_quantity(s, r) by {}
    }
}

/// Drops the transactions that no longer count toward demand at `tick`, keeping the
/// rest in order.
pub fn prune_transactions<P>(transactions: &mut Vec<MarketTransaction<P>>, tick: u64)
    requires
        forall|i: int| 0 <= i < old(transactions)@.len() ==> (#[trigger] old(transactions)@[i]).tick
            + TRANSACTION_WINDOW_TICKS <= u64::MAX,
    ensures
        final(transactions)@ == select(old(transactions)@, is_recent(tick)),
{
    let ghost before = transactions@;
    let mut kept: Vec<MarketTransaction<P>> = Vec::new();
    let mut rest: Vec<MarketTransaction<P>> = Vec::new();
    let total = transactions.len();
    std::mem::swap(&mut rest, transactions);
    let mut n: usize = 0;
    while rest.len() > 0
        invariant
            n <= before.len(),
            total == before.len(),
            rest@ == before.skip(n as int),
            kept@ == select(before.take(n as int), is_recent::<P>(tick)),
            forall|k: int| 0 <= k < before.len() ==> (#[trigger] before[k]).tick + TRANSACTION_WINDOW_TICKS <= u64::MAX,
        decreases rest@.len(),
    {
        let t = rest.remove(0);
        proof {
            assert(t == before[n as int]);
            assert(rest@ =~= before.skip(n + 1));
            assert(before.take(n + 1).drop_last() =~= before.take(n as int));
            assert(before.take(n + 1).last() == before[n as int]);
        }
        if t.tick + TRANSACTION_WINDOW_TICKS >= tick {
            kept.push(t);
        }
        n = n + 1;
    }
    assert(before.take(n as int) =~= before);
    *transactions = kept;
}

} // verus!
