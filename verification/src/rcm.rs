//! Resource Manager
//!
//! A pool of named, counted resources. Tasks claim a part of the pool for as long as they run.
use crate::names::NameMap;
use vstd::prelude::*;

verus! {

#[derive(Clone, Copy, Debug, PartialEq, Eq, Structural)]
pub enum ResourceError {
    NotRegistered,
    /// There is no resource of that name
    Unknown,
    /// Not enough resources in the pool. Requested, Current Amount
    NotEnough(usize, usize),
}

/// The amount of each resource that is free to be claimed.
pub type Pool = Map<Seq<char>, usize>;

/// `amount` units of `name` can be claimed.
pub open spec fn affordable(pool: Pool, name: Seq<char>, amount: usize) -> bool {
    pool.contains_key(name) && amount <= pool[name]
}

/// Why `amount` units of `name` cannot be claimed.
pub open spec fn refusal(pool: Pool, name: Seq<char>, amount: usize) -> ResourceError {
    if pool.contains_key(name) {
        ResourceError::NotEnough(amount, pool[name])
    } else {
        ResourceError::Unknown
    }
}

/// The pool once `amount` units of `name` were claimed.
pub open spec fn claimed(pool: Pool, name: Seq<char>, amount: usize) -> Pool {
    pool.insert(name, (pool[name] - amount) as usize)
}

/// The pool once `amount` units of `name` were added to it.
pub open spec fn added(pool: Pool, name: Seq<char>, amount: usize) -> Pool {
    if pool.contains_key(name) {
        pool.insert(name, (pool[name] + amount) as usize)
    } else {
        pool.insert(name, amount)
    }
}

/// The pool once `amount` units of `name` were removed from it. A resource of which nothing is
/// left is no longer in the pool.
pub open spec fn removed(pool: Pool, name: Seq<char>, amount: usize) -> Pool {
    if pool[name] <= amount {
        pool.remove(name)
    } else {
        pool.insert(name, (pool[name] - amount) as usize)
    }
}

/// Every resource of `wants` can be claimed.
pub open spec fn all_affordable(pool: Pool, wants: Pool) -> bool {
    forall|name: Seq<char>| #[trigger]
        wants.contains_key(name) ==> affordable(pool, name, wants[name])
}

/// The pool once everything in `wants` was claimed.
pub open spec fn granted(pool: Pool, wants: Pool) -> Pool {
    Map::new(
        |name: Seq<char>| pool.contains_key(name),
        |name: Seq<char>|
            if wants.contains_key(name) {
                (pool[name] - wants[name]) as usize
            } else {
                pool[name]
            },
    )
}

/// `error` is why the first resource that cannot be claimed, of those in `order`, cannot be.
pub open spec fn first_refusal(
    pool: Pool,
    order: Seq<Seq<char>>,
    wants: Pool,
    error: ResourceError,
) -> bool {
    exists|i: int|
        #![trigger order[i]]
        {
            &&& 0 <= i < order.len()
            &&& forall|j: int|
                0 <= j < i ==> affordable(pool, #[trigger] order[j], wants[order[j]])
            &&& !affordable(pool, order[i], wants[order[i]])
            &&& error == refusal(pool, order[i], wants[order[i]])
        }
}

/// The claim can be given back to the pool without exceeding what can be counted.
pub open spec fn claim_fits(pool: Pool, claim: ClaimView) -> bool {
    pool.contains_key(claim.resource) ==> pool[claim.resource] + claim.amount <= usize::MAX
}

/// The pool once the claim was given back. What was claimed of a resource that is no longer in the
/// pool is lost.
pub open spec fn released(pool: Pool, claim: ClaimView) -> Pool {
    if pool.contains_key(claim.resource) {
        pool.insert(claim.resource, (pool[claim.resource] + claim.amount) as usize)
    } else {
        pool
    }
}

/// A part of the pool.
pub struct ClaimView {
    pub resource: Seq<char>,
    pub amount: usize,
}

/// `order` lists the names in `wants`, each of them once.
pub open spec fn lists(order: Seq<Seq<char>>, wants: Pool) -> bool {
    &&& order.no_duplicates()
    &&& forall|name: Seq<char>| wants.contains_key(name) <==> #[trigger] order.contains(name)
}

/// One claim for each resource of `wants`.
pub open spec fn wanted(order: Seq<Seq<char>>, wants: Pool) -> Seq<ClaimView> {
    Seq::new(order.len(), |i: int| ClaimView { resource: order[i], amount: wants[order[i]] })
}

/// How much of `name` the claims hold together.
pub open spec fn held(claims: Seq<ClaimView>, name: Seq<char>) -> nat
    decreases claims.len(),
{
    if claims.len() == 0 {
        0
    } else {
        held(claims.drop_last(), name) + (if claims.last().resource == name {
            claims.last().amount as nat
        } else {
            0
        })
    }
}

/// The claims hold what `wants` says, and nothing else.
pub open spec fn covers(claims: Seq<ClaimView>, wants: Pool) -> bool {
    forall|name: Seq<char>| #[trigger]
        held(claims, name) == (if wants.contains_key(name) {
            wants[name] as nat
        } else {
            0
        })
}

/// The claims can be given back to the pool without exceeding what can be counted.
pub open spec fn fits(pool: Pool, claims: Seq<ClaimView>) -> bool {
    forall|name: Seq<char>| #[trigger]
        pool.contains_key(name) ==> pool[name] + held(claims, name) <= usize::MAX
}

/// The pool once all of the claims were given back.
pub open spec fn returned(pool: Pool, claims: Seq<ClaimView>) -> Pool {
    Map::new(
        |name: Seq<char>| pool.contains_key(name),
        |name: Seq<char>| (pool[name] + held(claims, name)) as usize,
    )
}

pub open spec fn claim_views(claims: Seq<Claim>) -> Seq<ClaimView> {
    claims.map_values(|claim: Claim| claim@)
}

#[derive(Debug)]
pub struct Resource {
    resource: String,
    lake: usize,
}

impl Resource {
    pub closed spec fn name(&self) -> Seq<char> {
        self.resource@
    }

    pub closed spec fn amount(&self) -> usize {
        self.lake
    }

    /// Claim `amount` units. Nothing is taken unless there are that many.
    pub fn consume(&mut self, amount: usize) -> (claim: Result<Claim, ResourceError>)
        ensures
            final(self).name() == old(self).name(),
            match claim {
                Ok(claim) => {
                    &&& amount <= old(self).amount()
                    &&& final(self).amount() == old(self).amount() - amount
                    &&& claim@ == (ClaimView { resource: old(self).name(), amount })
                },
                Err(error) => {
                    &&& amount > old(self).amount()
                    &&& final(self).amount() == old(self).amount()
                    &&& error == ResourceError::NotEnough(amount, old(self).amount())
                },
            },
    {
        if amount > self.lake {
            return Err(ResourceError::NotEnough(amount, self.lake));
        }
        // reduce the amount stored by the amount we want
        self.lake -= amount;
        Ok(Claim { resource: self.resource.clone(), amount })
    }

    pub fn peak(&self) -> (amount: usize)
        ensures
            amount == self.amount(),
    {
        self.lake
    }
}

/// A claim represents a chunk of the pool that is being held.
///
/// The chunk is out of the pool until the claim is released. A claim that is dropped without being
/// released never returns to the pool, so whoever holds one has to see to it.
#[must_use]
#[derive(Debug)]
pub struct Claim {
    resource: String,
    amount: usize,
}

impl View for Claim {
    type V = ClaimView;

    closed spec fn view(&self) -> ClaimView {
        ClaimView { resource: self.resource@, amount: self.amount }
    }
}

impl Claim {
    /// Release this claim, returning the resources to the pool at large. This action consumes the
    /// object
    pub fn release(self, manager: &mut ResourceManager)
        requires
            claim_fits(old(manager)@, self@),
        ensures
            final(manager)@ == released(old(manager)@, self@),
    {
        self.int_release(manager)
    }

    pub fn read(&self) -> (amount: usize)
        ensures
            amount == self@.amount,
    {
        self.amount
    }

    fn int_release(&self, manager: &mut ResourceManager)
        requires
            claim_fits(old(manager)@, self@),
        ensures
            final(manager)@ == released(old(manager)@, self@),
    {
        if manager.available(self.resource.as_str()).is_some() {
            manager.add(self.resource.as_str(), self.amount);
        }
    }
}

/// What one more claim adds.
pub(crate) proof fn held_push(claims: Seq<ClaimView>, claim: ClaimView)
    ensures
        forall|name: Seq<char>| #[trigger]
            held(claims.push(claim), name) == held(claims, name) + (if claim.resource == name {
                claim.amount as nat
            } else {
                0
            }),
{
    assert(claims.push(claim).drop_last() =~= claims);
}

/// Of claims on different resources, at most one holds some of `name`.
proof fn held_distinct(order: Seq<Seq<char>>, wants: Pool, name: Seq<char>)
    requires
        order.no_duplicates(),
    ensures
        held(wanted(order, wants), name) == (if order.contains(name) {
            wants[name] as nat
        } else {
            0
        }),
    decreases order.len(),
{
    let claims = wanted(order, wants);
    if order.len() > 0 {
        let shorter = order.drop_last();
        assert(claims.drop_last() =~= wanted(shorter, wants));
        held_distinct(shorter, wants, name);
        if shorter.contains(name) {
            let i = choose|i: int| 0 <= i < shorter.len() && shorter[i] == name;
            assert(order[i] == name);
        }
        if order.contains(name) && order.last() != name {
            let i = choose|i: int| 0 <= i < order.len() && order[i] == name;
            assert(shorter[i] == name);
        }
        if order.last() == name {
            assert(order[order.len() - 1] == name);
        }
    }
}

/// Claiming, and then releasing what was claimed, leaves the pool as it was.
pub proof fn release_undoes_consume(pool: Pool, order: Seq<Seq<char>>, wants: Pool)
    requires
        lists(order, wants),
        all_affordable(pool, wants),
    ensures
        fits(granted(pool, wants), wanted(order, wants)),
        returned(granted(pool, wants), wanted(order, wants)) == pool,
{
    claims_cover_wants(order, wants);
    assert(returned(granted(pool, wants), wanted(order, wants)) =~= pool);
}

/// A claim that is released returns to the pool what was taken out for it, once.
pub proof fn released_claim_is_returned(pool: Pool, name: Seq<char>, amount: usize)
    requires
        affordable(pool, name, amount),
    ensures
        claim_fits(claimed(pool, name, amount), ClaimView { resource: name, amount }),
        released(claimed(pool, name, amount), ClaimView { resource: name, amount }) == pool,
{
    assert(released(claimed(pool, name, amount), ClaimView { resource: name, amount }) =~= pool);
}

/// Removing what was added leaves the pool as it was. A resource of which nothing was free before
/// is gone, though.
pub proof fn remove_undoes_add(pool: Pool, name: Seq<char>, amount: usize)
    requires
        pool.contains_key(name) ==> 0 < pool[name] && pool[name] + amount <= usize::MAX,
    ensures
        removed(added(pool, name, amount), name, amount) == pool,
{
    assert(removed(added(pool, name, amount), name, amount) =~= pool);
}

/// A request is refused only if one of the resources that it asks for cannot be given.
pub proof fn affordable_request_is_not_refused(
    pool: Pool,
    order: Seq<Seq<char>>,
    wants: Pool,
    error: ResourceError,
)
    requires
        lists(order, wants),
        all_affordable(pool, wants),
    ensures
        !first_refusal(pool, order, wants, error),
{
    assert forall|i: int| 0 <= i < order.len() implies affordable(
        pool,
        #[trigger] order[i],
        wants[order[i]],
    ) by {
        assert(order.contains(order[i]));
    }
}

/// The claims for `wants` hold what `wants` says, and nothing else.
pub proof fn claims_cover_wants(order: Seq<Seq<char>>, wants: Pool)
    requires
        lists(order, wants),
    ensures
        covers(wanted(order, wants), wants),
{
    assert forall|name: Seq<char>| #[trigger] held(wanted(order, wants), name) == (
    if wants.contains_key(name) {
        wants[name] as nat
    } else {
        0
    }) by {
        held_distinct(order, wants, name);
        assert(wants.contains_key(name) <==> order.contains(name));
    }
}

/// What is claimed and what is left in the pool add up to what was in the pool before: nothing is
/// lost and nothing is made by claiming.
pub proof fn claims_conserve(pool: Pool, claims: Seq<ClaimView>, wants: Pool, name: Seq<char>)
    requires
        covers(claims, wants),
        all_affordable(pool, wants),
        pool.contains_key(name),
    ensures
        granted(pool, wants)[name] + held(claims, name) == pool[name],
{
    if wants.contains_key(name) {
        assert(affordable(pool, name, wants[name]));
    }
}

/// Releasing claims together is releasing them one after the other. What is given back depends on
/// what is held in sum, so the order does not matter.
pub proof fn releases_add_up(pool: Pool, claims: Seq<ClaimView>, claim: ClaimView)
    requires
        fits(pool, claims.push(claim)),
    ensures
        fits(pool, claims),
        claim_fits(returned(pool, claims), claim),
        released(returned(pool, claims), claim) == returned(pool, claims.push(claim)),
{
    held_push(claims, claim);
    assert forall|name: Seq<char>| #[trigger] pool.contains_key(name) implies pool[name] + held(
        claims,
        name,
    ) <= usize::MAX by {
        assert(pool[name] + held(claims.push(claim), name) <= usize::MAX);
    }
    assert(pool.contains_key(claim.resource) ==> pool[claim.resource] + held(
        claims.push(claim),
        claim.resource,
    ) <= usize::MAX);
    assert(released(returned(pool, claims), claim) =~= returned(pool, claims.push(claim)));
}

#[derive(Debug)]
pub struct ResourceManager {
    /// Map of Resources
    resource_lake: NameMap<Resource>,
}

impl View for ResourceManager {
    type V = Pool;

    closed spec fn view(&self) -> Pool {
        self.resource_lake@.map_values(|resource: Resource| resource.lake)
    }
}

impl ResourceManager {
    /// Every resource goes by the name under which it is kept.
    #[verifier::type_invariant]
    spec fn wf(&self) -> bool {
        forall|name: Seq<char>| #[trigger]
            self.resource_lake@.contains_key(name) ==> self.resource_lake@[name].resource@ == name
    }

    pub fn new() -> (manager: Self)
        ensures
            manager@ == Map::<Seq<char>, usize>::empty(),
    {
        let manager = ResourceManager { resource_lake: NameMap::new() };
        assert(manager@ =~= Map::<Seq<char>, usize>::empty());
        manager
    }

    /// How much of the resource is free.
    fn available(&self, resource: &str) -> (amount: Option<usize>)
        ensures
            amount == (if self@.contains_key(resource@) {
                Some(self@[resource@])
            } else {
                None
            }),
    {
        match self.resource_lake.get(resource) {
            Some(r) => Some(r.peak()),
            None => None,
        }
    }

    /// Put `amount` units of the resource into the pool, in place of what there is.
    fn put(&mut self, resource: &str, amount: usize)
        ensures
            final(self)@ == old(self)@.insert(resource@, amount),
    {
        proof {
            use_type_invariant(&*self);
        }
        let mut lakes: NameMap<Resource> = NameMap::new();
        std::mem::swap(&mut lakes, &mut self.resource_lake);
        lakes.insert(
            resource.to_owned(),
            Resource { resource: resource.to_owned(), lake: amount },
        );
        self.resource_lake = lakes;
        assert(self@ =~= old(self)@.insert(resource@, amount));
    }

    /// Add a resource amount to the pool. Incrementing it by the given amount if it does exist
    pub fn add(&mut self, resource: &str, amount: usize)
        requires
            old(self)@.contains_key(resource@) ==> old(self)@[resource@] + amount <= usize::MAX,
        ensures
            final(self)@ == added(old(self)@, resource@, amount),
    {
        match self.available(resource) {
            Some(current) => self.put(resource, current + amount),
            None => self.put(resource, amount),
        }
    }

    /// Remove the given amount of resources from the given resource. If the resulting amount of
    /// resource is less than or equal to zero, the Resource is removed.
    pub fn remove(&mut self, resource: &str, amount: usize) -> (result: Result<(), ResourceError>)
        ensures
            match result {
                Ok(()) => {
                    &&& old(self)@.contains_key(resource@)
                    &&& final(self)@ == removed(old(self)@, resource@, amount)
                },
                Err(error) => {
                    &&& !old(self)@.contains_key(resource@)
                    &&& error == ResourceError::Unknown
                    &&& final(self)@ == old(self)@
                },
            },
    {
        match self.available(resource) {
            None => Err(ResourceError::Unknown),
            Some(current) => {
                if current <= amount {
                    proof {
                        use_type_invariant(&*self);
                    }
                    let mut lakes: NameMap<Resource> = NameMap::new();
                    std::mem::swap(&mut lakes, &mut self.resource_lake);
                    let _ = lakes.remove(resource);
                    self.resource_lake = lakes;
                    assert(self@ =~= old(self)@.remove(resource@));
                } else {
                    self.put(resource, current - amount);
                }
                Ok(())
            },
        }
    }

    /// Consume a given amount of the given resource. Returns a `Claim` object, which represents the
    /// block of resources. Once the `Claim` object is released, the resources are returned to the
    /// pool
    pub fn consume(&mut self, resource: &str, amount: usize) -> (claim: Result<
        Claim,
        ResourceError,
    >)
        ensures
            match claim {
                Ok(claim) => {
                    &&& affordable(old(self)@, resource@, amount)
                    &&& final(self)@ == claimed(old(self)@, resource@, amount)
                    &&& claim@ == (ClaimView { resource: resource@, amount })
                },
                Err(error) => {
                    &&& !affordable(old(self)@, resource@, amount)
                    &&& error == refusal(old(self)@, resource@, amount)
                    &&& final(self)@ == old(self)@
                },
            },
    {
        proof {
            use_type_invariant(&*self);
        }
        let mut lakes: NameMap<Resource> = NameMap::new();
        std::mem::swap(&mut lakes, &mut self.resource_lake);
        let result = match lakes.remove(resource) {
            Some(found) => {
                let mut r = found;
                let claim = r.consume(amount);
                lakes.insert(resource.to_owned(), r);
                claim
            },
            None => Err(ResourceError::Unknown),
        };
        self.resource_lake = lakes;
        proof {
            if result is Ok {
                assert(self@ =~= claimed(old(self)@, resource@, amount));
            } else {
                assert(self@ =~= old(self)@);
            }
        }
        result
    }

    /// Consume all of the given resources, or none of them. The error tells of the first resource,
    /// in the order in which they were asked for, that cannot be given.
    pub fn consume_all(&mut self, wants: &NameMap<usize>) -> (claims: Result<
        Vec<Claim>,
        ResourceError,
    >)
        ensures
            wants.valid(),
            match claims {
                Ok(claims) => {
                    &&& all_affordable(old(self)@, wants@)
                    &&& final(self)@ == granted(old(self)@, wants@)
                    &&& claim_views(claims@) == wanted(wants.order(), wants@)
                },
                Err(error) => {
                    &&& !all_affordable(old(self)@, wants@)
                    &&& first_refusal(old(self)@, wants.order(), wants@, error)
                    &&& final(self)@ == old(self)@
                },
            },
    {
        let count = wants.len();
        let ghost order = wants.order();
        let ghost pool = self@;
        let mut claims: Vec<Claim> = Vec::new();
        let mut i: usize = 0;
        while i < count
            invariant
                count == wants.order().len(),
                order == wants.order(),
                wants.valid(),
                i <= count,
                pool == old(self)@,
                claim_views(claims@) == wanted(order.take(i as int), wants@),
                forall|j: int|
                    0 <= j < i ==> affordable(pool, #[trigger] order[j], wants@[order[j]]),
                self@.dom() == pool.dom(),
                forall|name: Seq<char>| #[trigger]
                    pool.contains_key(name) ==> self@[name] == (if order.take(i as int).contains(
                        name,
                    ) {
                        pool[name] - wants@[name]
                    } else {
                        pool[name] as int
                    }),
            decreases count - i,
        {
            let name = wants.name_at(i);
            let amount = *wants.value_at(i);
            let ghost before = self@;
            let ghost taken = order.take(i as int);
            proof {
                assert(!taken.contains(name@)) by {
                    if taken.contains(name@) {
                        let k = choose|k: int| 0 <= k < taken.len() && taken[k] == name@;
                        assert(order[k] == order[i as int]);
                    }
                }
                assert(affordable(before, name@, amount) == affordable(pool, name@, amount)) by {
                    if pool.contains_key(name@) {
                        assert(before.dom().contains(name@));
                    } else {
                        assert(!before.dom().contains(name@));
                    }
                }
            }
            match self.consume(name.as_str(), amount) {
                Ok(claim) => {
                    let ghost earlier = claims@;
                    claims.push(claim);
                    proof {
                        let next = order.take(i + 1);
                        assert(next =~= taken.push(name@));
                        assert(claim_views(claims@) =~= claim_views(earlier).push(claim@));
                        assert(claim_views(claims@) =~= wanted(next, wants@)) by {
                            assert forall|j: int| 0 <= j < next.len() implies #[trigger] claim_views(
                                claims@,
                            )[j] == wanted(next, wants@)[j] by {
                                if j < i {
                                    assert(claim_views(earlier)[j] == wanted(taken, wants@)[j]);
                                }
                            }
                        }
                        assert(self@.dom() =~= pool.dom());
                        assert forall|n: Seq<char>| #[trigger] pool.contains_key(n) implies self@[n]
                            == (if next.contains(n) {
                            pool[n] - wants@[n]
                        } else {
                            pool[n] as int
                        }) by {
                            if n == name@ {
                                assert(next[i as int] == n);
                            } else {
                                if taken.contains(n) {
                                    let k = choose|k: int| 0 <= k < taken.len() && taken[k] == n;
                                    assert(next[k] == n);
                                }
                                if next.contains(n) {
                                    let k = choose|k: int| 0 <= k < next.len() && next[k] == n;
                                    assert(taken[k] == n);
                                }
                            }
                        }
                    }
                },
                Err(error) => {
                    proof {
                        assert(taken.no_duplicates());
                        let views = claim_views(claims@);
                        assert forall|n: Seq<char>| #[trigger] self@.contains_key(n) implies self@[n]
                            + held(views, n) == pool[n] by {
                            assert(pool.dom().contains(n));
                            held_distinct(taken, wants@, n);
                            if taken.contains(n) {
                                let k = choose|k: int| 0 <= k < taken.len() && taken[k] == n;
                                assert(affordable(pool, order[k], wants@[order[k]]));
                            }
                        }
                        assert(returned(self@, views) =~= pool);
                        assert(error == refusal(pool, order[i as int], wants@[order[i as int]]));
                        assert(order.contains(order[i as int]));
                    }
                    self.release_all(claims);
                    return Err(error);
                },
            }
            i += 1;
        }
        proof {
            assert(order.take(count as int) =~= order);
            assert forall|name: Seq<char>| #[trigger] wants@.contains_key(name) implies affordable(
                pool,
                name,
                wants@[name],
            ) by {
                assert(order.contains(name));
                let k = choose|k: int| 0 <= k < order.len() && order[k] == name;
                assert(affordable(pool, order[k], wants@[order[k]]));
            }
            assert(self@ =~= granted(pool, wants@)) by {
                assert forall|name: Seq<char>| #[trigger] pool.contains_key(name) implies self@[name]
                    == granted(pool, wants@)[name] by {
                    assert(order.contains(name) <==> wants@.contains_key(name));
                }
            }
        }
        Ok(claims)
    }

    /// Release all of the claims.
    pub fn release_all(&mut self, claims: Vec<Claim>)
        requires
            fits(old(self)@, claim_views(claims@)),
        ensures
            final(self)@ == returned(old(self)@, claim_views(claims@)),
    {
        let ghost views = claim_views(claims@);
        let ghost pool = self@;
        let mut i: usize = 0;
        assert(returned(pool, views.take(0)) =~= pool);
        while i < claims.len()
            invariant
                i <= claims@.len(),
                views == claim_views(claims@),
                fits(pool, views),
                self@ == returned(pool, views.take(i as int)),
            decreases claims@.len() - i,
        {
            proof {
                let next = views.take(i + 1);
                assert(next =~= views.take(i as int).push(views[i as int]));
                prefix_fits(pool, views, i + 1);
                releases_add_up(pool, views.take(i as int), views[i as int]);
            }
            claims[i].int_release(self);
            i += 1;
        }
        assert(views.take(i as int) =~= views);
    }

    /// Can the claims be released without exceeding what can be counted?
    pub fn can_release(&self, claims: &Vec<Claim>) -> (yes: bool)
        ensures
            yes == fits(self@, claim_views(claims@)),
    {
        let ghost views = claim_views(claims@);
        let mut i: usize = 0;
        while i < claims.len()
            invariant
                i <= claims@.len(),
                views == claim_views(claims@),
                forall|k: int|
                    0 <= k < i && self@.contains_key((#[trigger] views[k]).resource)
                        ==> self@[views[k].resource] + held(views, views[k].resource) <= usize::MAX,
            decreases claims@.len() - i,
        {
            let name = &claims[i].resource;
            if let Some(current) = self.available(name.as_str()) {
                let mut sum: usize = current;
                let mut j: usize = 0;
                assert(views.take(0) =~= Seq::<ClaimView>::empty());
                while j < claims.len()
                    invariant
                        j <= claims@.len(),
                        views == claim_views(claims@),
                        self@.contains_key(name@),
                        current == self@[name@],
                        sum == current + held(views.take(j as int), name@),
                    decreases claims@.len() - j,
                {
                    assert(views.take(j + 1) =~= views.take(j as int).push(views[j as int]));
                    proof {
                        held_push(views.take(j as int), views[j as int]);
                    }
                    if claims[j].resource == *name {
                        match sum.checked_add(claims[j].amount) {
                            Some(more) => sum = more,
                            None => {
                                proof {
                                    held_prefix(views, j + 1, name@);
                                }
                                return false;
                            },
                        }
                    }
                    j += 1;
                }
                assert(views.take(j as int) =~= views);
            }
            i += 1;
        }
        proof {
            assert forall|name: Seq<char>| #[trigger] self@.contains_key(name) implies self@[name]
                + held(views, name) <= usize::MAX by {
                if held(views, name) > 0 {
                    let k = held_source(views, name);
                    assert(views[k].resource == name);
                }
            }
        }
        true
    }

    /// What is free of each resource.
    pub fn peak(&self) -> (pool: NameMap<usize>)
        ensures
            pool@ == self@,
    {
        let mut output: NameMap<usize> = NameMap::new();
        let count = self.resource_lake.len();
        let ghost order = self.resource_lake.order();
        let mut i: usize = 0;
        while i < count
            invariant
                i <= count,
                count == order.len(),
                order == self.resource_lake.order(),
                forall|name: Seq<char>| #[trigger]
                    output@.contains_key(name) <==> order.take(i as int).contains(name),
                forall|name: Seq<char>| #[trigger]
                    output@.contains_key(name) ==> self@.contains_key(name) && output@[name]
                        == self@[name],
            decreases count - i,
        {
            let name = self.resource_lake.name_at(i);
            let amount = self.resource_lake.value_at(i).peak();
            let ghost before = output@;
            output.insert(name.clone(), amount);
            proof {
                let next = order.take(i + 1);
                let taken = order.take(i as int);
                assert(next =~= taken.push(name@));
                assert forall|n: Seq<char>| #[trigger] output@.contains_key(n) <==> next.contains(
                    n,
                ) by {
                    assert(before.contains_key(n) <==> taken.contains(n));
                    if n == name@ {
                        assert(next[i as int] == n);
                    }
                    if taken.contains(n) {
                        let k = choose|k: int| 0 <= k < taken.len() && taken[k] == n;
                        assert(next[k] == n);
                    }
                    if next.contains(n) && n != name@ {
                        let k = choose|k: int| 0 <= k < next.len() && next[k] == n;
                        assert(taken[k] == n);
                    }
                }
            }
            i += 1;
        }
        proof {
            assert(order.take(count as int) =~= order);
            assert forall|name: Seq<char>| #[trigger]
                self@.contains_key(name) implies output@.contains_key(name) by {
                assert(order.contains(name));
            }
            assert(output@ =~= self@);
        }
        output
    }
}

/// A prefix of the claims holds no more than all of them.
proof fn held_prefix(claims: Seq<ClaimView>, count: int, name: Seq<char>)
    requires
        0 <= count <= claims.len(),
    ensures
        held(claims.take(count), name) <= held(claims, name),
    decreases claims.len(),
{
    if count == claims.len() {
        assert(claims.take(count) =~= claims);
    } else {
        held_prefix(claims.drop_last(), count, name);
        assert(claims.drop_last().take(count) =~= claims.take(count));
    }
}

proof fn prefix_fits(pool: Pool, claims: Seq<ClaimView>, count: int)
    requires
        0 <= count <= claims.len(),
        fits(pool, claims),
    ensures
        fits(pool, claims.take(count)),
{
    assert forall|name: Seq<char>| #[trigger] pool.contains_key(name) implies pool[name] + held(
        claims.take(count),
        name,
    ) <= usize::MAX by {
        held_prefix(claims, count, name);
    }
}

/// Something of `name` is held only if one of the claims is on it.
proof fn held_source(claims: Seq<ClaimView>, name: Seq<char>) -> (k: int)
    requires
        held(claims, name) > 0,
    ensures
        0 <= k < claims.len(),
        claims[k].resource == name,
    decreases claims.len(),
{
    if claims.last().resource == name {
        claims.len() - 1
    } else {
        held_source(claims.drop_last(), name)
    }
}

impl Default for ResourceManager {
    fn default() -> (manager: Self)
        ensures
            manager@ == Map::<Seq<char>, usize>::empty(),
    {
        Self::new()
    }
}

} // verus!
