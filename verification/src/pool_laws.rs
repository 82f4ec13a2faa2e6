//! What the resource manager does, in terms of amounts.
use crate::names::NameMap;
use crate::rcm::{
    affordable, claim_views, claims_cover_wants, fits, held, refusal, Claim, Resource,
    ResourceError, ResourceManager,
};
use vstd::prelude::*;

verus! {

/// A claim is made exactly if the resource is known and there is enough of it. It holds what was
/// asked for, and that is what is missing afterwards. A claim that is not made changes nothing, and
/// the error says what was asked for and what there is. Other resources do not change.
pub proof fn consuming_takes_the_amount(
    manager: &mut ResourceManager,
    resource: &str,
    amount: usize,
    claim: Result<Claim, ResourceError>,
    other: Seq<char>,
)
    requires
        call_ensures(ResourceManager::consume, (manager, resource, amount), claim),
        other != resource@,
    ensures
        claim is Ok <==> old(manager)@.contains_key(resource@) && amount
            <= old(manager)@[resource@],
        claim is Ok ==> claim->Ok_0@.amount == amount && claim->Ok_0@.resource == resource@,
        claim is Ok ==> final(manager)@.contains_key(resource@) && final(manager)@[resource@]
            + amount == old(manager)@[resource@],
        claim is Err ==> final(manager)@ == old(manager)@,
        claim is Err && old(manager)@.contains_key(resource@) ==> claim->Err_0
            == ResourceError::NotEnough(amount, old(manager)@[resource@]),
        claim is Err && !old(manager)@.contains_key(resource@) ==> claim->Err_0
            == ResourceError::Unknown,
        final(manager)@.contains_key(other) == old(manager)@.contains_key(other),
        old(manager)@.contains_key(other) ==> final(manager)@[other] == old(manager)@[other],
{
}

/// Taking from a single resource takes exactly what was asked for, if there is that much.
pub proof fn resource_gives_the_amount(
    resource: &mut Resource,
    amount: usize,
    claim: Result<Claim, ResourceError>,
)
    requires
        call_ensures(Resource::consume, (resource, amount), claim),
    ensures
        claim is Ok <==> amount <= old(resource).amount(),
        claim is Ok ==> final(resource).amount() + amount == old(resource).amount(),
        claim is Ok
            ==> claim->Ok_0@.amount == amount && claim->Ok_0@.resource == old(resource).name(),
        claim is Err ==> final(resource).amount() == old(resource).amount(),
        claim is Err ==> claim->Err_0 == ResourceError::NotEnough(amount, old(resource).amount()),
        final(resource).name() == old(resource).name(),
{
}

/// What is free of a resource can be looked at, and so can what a claim holds.
pub proof fn amounts_are_read(resource: &Resource, free: usize, claim: &Claim, holds: usize)
    requires
        call_ensures(Resource::peak, (resource,), free),
        call_ensures(Claim::read, (claim,), holds),
    ensures
        free == resource.amount(),
        holds == claim@.amount,
{
}

/// A claim that is made and released leaves the pool as it was, whatever was asked for.
pub proof fn claiming_and_releasing_changes_nothing(
    manager: &mut ResourceManager,
    resource: &str,
    amount: usize,
    claim: Claim,
    later: &mut ResourceManager,
)
    requires
        call_ensures(ResourceManager::consume, (manager, resource, amount), Ok(claim)),
        *old(later) == *final(manager),
        call_ensures(Claim::release, (claim, later), ()),
    ensures
        final(later)@ == old(manager)@,
{
    assert(final(later)@ =~= old(manager)@);
}

/// Releasing a claim adds what it holds to its resource, if that is in the pool, and changes
/// nothing else.
pub proof fn releasing_returns_the_amount(
    claim: Claim,
    manager: &mut ResourceManager,
    other: Seq<char>,
)
    requires
        call_ensures(Claim::release, (claim, manager), ()),
        old(manager)@.contains_key(claim@.resource) ==> old(manager)@[claim@.resource]
            + claim@.amount <= usize::MAX,
        other != claim@.resource,
    ensures
        final(manager)@.contains_key(claim@.resource) == old(manager)@.contains_key(
            claim@.resource,
        ),
        old(manager)@.contains_key(claim@.resource)
            ==> final(manager)@[claim@.resource] == old(manager)@[claim@.resource] + claim@.amount,
        final(manager)@.contains_key(other) == old(manager)@.contains_key(other),
        old(manager)@.contains_key(other) ==> final(manager)@[other] == old(manager)@[other],
{
}

/// Adding puts exactly that much more of the resource into the pool, and changes no other.
pub proof fn adding_adds_the_amount(
    manager: &mut ResourceManager,
    resource: &str,
    amount: usize,
    other: Seq<char>,
)
    requires
        call_ensures(ResourceManager::add, (manager, resource, amount), ()),
        old(manager)@.contains_key(resource@) ==> old(manager)@[resource@] + amount
            <= usize::MAX,
        other != resource@,
    ensures
        final(manager)@.contains_key(resource@),
        old(manager)@.contains_key(resource@)
            ==> final(manager)@[resource@] == old(manager)@[resource@] + amount,
        !old(manager)@.contains_key(resource@) ==> final(manager)@[resource@] == amount,
        final(manager)@.contains_key(other) == old(manager)@.contains_key(other),
        old(manager)@.contains_key(other) ==> final(manager)@[other] == old(manager)@[other],
{
}

/// Removing takes exactly that much of the resource out of the pool, and the resource itself if
/// nothing is left of it. It is an error exactly if the resource is unknown. No other changes.
pub proof fn removing_takes_the_amount_out(
    manager: &mut ResourceManager,
    resource: &str,
    amount: usize,
    result: Result<(), ResourceError>,
    other: Seq<char>,
)
    requires
        call_ensures(ResourceManager::remove, (manager, resource, amount), result),
        other != resource@,
    ensures
        result is Ok <==> old(manager)@.contains_key(resource@),
        result is Err
            ==> result->Err_0 == ResourceError::Unknown && final(manager)@ == old(manager)@,
        result is Ok ==> (final(manager)@.contains_key(resource@) <==> old(manager)@[resource@]
            > amount),
        final(manager)@.contains_key(resource@)
            ==> final(manager)@[resource@] + amount == old(manager)@[resource@],
        final(manager)@.contains_key(other) == old(manager)@.contains_key(other),
        old(manager)@.contains_key(other) ==> final(manager)@[other] == old(manager)@[other],
{
}

/// All of the resources are claimed, or none. They are claimed exactly if there is enough of each.
/// The claims hold what was asked for of each resource, and that is what is missing afterwards. A
/// refusal tells of a resource that was asked for and cannot be had.
pub proof fn consuming_all_takes_all_amounts(
    manager: &mut ResourceManager,
    wants: &NameMap<usize>,
    claims: Result<Vec<Claim>, ResourceError>,
    name: Seq<char>,
)
    requires
        call_ensures(ResourceManager::consume_all, (manager, wants), claims),
    ensures
        claims is Ok <==> (forall|n: Seq<char>| #[trigger]
            wants@.contains_key(n)
                ==> old(manager)@.contains_key(n) && wants@[n] <= old(manager)@[n]),
        claims is Ok ==> held(claim_views(claims->Ok_0@), name) == (if wants@.contains_key(name) {
            wants@[name] as nat
        } else {
            0
        }),
        final(manager)@.contains_key(name) == old(manager)@.contains_key(name),
        claims is Ok && old(manager)@.contains_key(name) ==> final(manager)@[name] + held(
            claim_views(claims->Ok_0@),
            name,
        ) == old(manager)@[name],
        claims is Err ==> final(manager)@ == old(manager)@,
        claims is Err ==> exists|n: Seq<char>| #[trigger]
            wants@.contains_key(n) && (if old(manager)@.contains_key(n) {
                wants@[n] > old(manager)@[n] && claims->Err_0 == ResourceError::NotEnough(
                    wants@[n],
                    old(manager)@[n],
                )
            } else {
                claims->Err_0 == ResourceError::Unknown
            }),
{
    let pool = old(manager)@;
    let order = wants.order();
    match claims {
        Ok(claims) => {
            claims_cover_wants(order, wants@);
            assert(held(claim_views(claims@), name) == (if wants@.contains_key(name) {
                wants@[name] as nat
            } else {
                0
            }));
            assert forall|n: Seq<char>| #[trigger] wants@.contains_key(n) implies pool.contains_key(
                n,
            ) && wants@[n] <= pool[n] by {
                assert(affordable(pool, n, wants@[n]));
            }
        },
        Err(error) => {
            let i = choose|i: int|
                #![trigger order[i]]
                {
                    &&& 0 <= i < order.len()
                    &&& forall|j: int|
                        0 <= j < i ==> affordable(pool, #[trigger] order[j], wants@[order[j]])
                    &&& !affordable(pool, order[i], wants@[order[i]])
                    &&& error == refusal(pool, order[i], wants@[order[i]])
                };
            assert(order.contains(order[i]));
            assert(wants@.contains_key(order[i]));
        },
    }
}

/// A refusal tells of the first resource, in the order in which they were asked for, that cannot be
/// had.
pub proof fn refusals_tell_of_the_first(
    manager: &mut ResourceManager,
    wants: &NameMap<usize>,
    error: ResourceError,
) -> (i: int)
    requires
        call_ensures(ResourceManager::consume_all, (manager, wants), Err(error)),
    ensures
        0 <= i < wants.order().len(),
        forall|j: int|
            0 <= j < i ==> old(manager)@.contains_key(#[trigger] wants.order()[j])
                && wants@[wants.order()[j]] <= old(manager)@[wants.order()[j]],
        old(manager)@.contains_key(wants.order()[i])
            ==> wants@[wants.order()[i]] > old(manager)@[wants.order()[i]] && error
            == ResourceError::NotEnough(
            wants@[wants.order()[i]],
            old(manager)@[wants.order()[i]],
        ),
        !old(manager)@.contains_key(wants.order()[i]) ==> error == ResourceError::Unknown,
{
    let pool = old(manager)@;
    let order = wants.order();
    let i = choose|i: int|
        #![trigger order[i]]
        {
            &&& 0 <= i < order.len()
            &&& forall|j: int|
                0 <= j < i ==> affordable(pool, #[trigger] order[j], wants@[order[j]])
            &&& !affordable(pool, order[i], wants@[order[i]])
            &&& error == refusal(pool, order[i], wants@[order[i]])
        };
    assert forall|j: int| 0 <= j < i implies pool.contains_key(#[trigger] order[j])
        && wants@[order[j]] <= pool[order[j]] by {
        assert(affordable(pool, order[j], wants@[order[j]]));
    }
    i
}

/// Amounts can be added, and claims released, whenever the sum can be counted.
pub proof fn amounts_can_be_added_and_released(
    manager: &mut ResourceManager,
    resource: &str,
    amount: usize,
    claim: Claim,
)
    ensures
        !old(manager)@.contains_key(resource@) || old(manager)@[resource@] + amount <= usize::MAX
            ==> call_requires(ResourceManager::add, (manager, resource, amount)),
        !old(manager)@.contains_key(claim@.resource) || old(manager)@[claim@.resource]
            + claim@.amount <= usize::MAX ==> call_requires(Claim::release, (claim, manager)),
{
}

/// Releasing claims adds to each resource in the pool exactly what the claims hold of it.
pub proof fn releasing_all_returns_all_amounts(
    manager: &mut ResourceManager,
    claims: Vec<Claim>,
    name: Seq<char>,
)
    requires
        call_ensures(ResourceManager::release_all, (manager, claims), ()),
        fits(old(manager)@, claim_views(claims@)),
    ensures
        final(manager)@.contains_key(name) == old(manager)@.contains_key(name),
        old(manager)@.contains_key(name) ==> final(manager)@[name] == old(manager)@[name] + held(
            claim_views(claims@),
            name,
        ),
{
    if old(manager)@.contains_key(name) {
        assert(old(manager)@[name] + held(claim_views(claims@), name) <= usize::MAX);
    }
}

/// Claims can be released exactly if the sum can be counted, for each resource in the pool.
pub proof fn releasable_claims_can_be_counted(
    manager: &ResourceManager,
    claims: &Vec<Claim>,
    yes: bool,
)
    requires
        call_ensures(ResourceManager::can_release, (manager, claims), yes),
    ensures
        yes <==> forall|name: Seq<char>| #[trigger]
            manager@.contains_key(name) ==> manager@[name] + held(claim_views(claims@), name)
                <= usize::MAX,
{
}

/// A new pool is empty, and looking at a pool shows what is free of each resource.
pub proof fn peaking_shows_the_pool(
    fresh: ResourceManager,
    manager: &ResourceManager,
    shown: NameMap<usize>,
    name: Seq<char>,
)
    requires
        call_ensures(ResourceManager::new, (), fresh),
        call_ensures(ResourceManager::peak, (manager,), shown),
    ensures
        !fresh@.contains_key(name),
        shown@.contains_key(name) == manager@.contains_key(name),
        manager@.contains_key(name) ==> shown@[name] == manager@[name],
{
}

/// The views of claims are those of each claim, in order.
pub proof fn claims_are_viewed_one_by_one(claims: Seq<Claim>, i: int)
    ensures
        claim_views(claims).len() == claims.len(),
        0 <= i < claims.len() ==> claim_views(claims)[i] == claims[i]@,
{
}

} // verus!
