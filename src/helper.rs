use vstd::prelude::*;

use crate::error::ContractError;
use crate::state::Coin;

verus! {

/// Some coin of `sent` has the denomination of `c` and at least its amount.
pub open spec fn covers(sent: Seq<Coin>, c: Coin) -> bool {
    exists|j: int| 0 <= j < sent.len() && #[trigger] sent[j].denom@ == c.denom@ && sent[j].amount >= c.amount
}

/// Every required amount is zero, or each required coin is covered by `sent`.
pub open spec fn sufficient_funds(sent: Seq<Coin>, required: Seq<Coin>) -> bool {
    (forall|i: int| 0 <= i < required.len() ==> (#[trigger] required[i]).amount == 0)
        || (forall|i: int| 0 <= i < required.len() ==> covers(sent, #[trigger] required[i]))
}

/// Checks that the funds sent cover each required coin.
pub fn assert_sent_sufficient_coin(sent: &[Coin], required: Vec<Coin>) -> (r: Result<(), ContractError>)
    ensures
        r == (if sufficient_funds(sent@, required@) {
            Ok::<(), ContractError>(())
        } else {
            Err(ContractError::InsufficientFundsSend {})
        }),
{
    let mut any_positive = false;
    let mut k: usize = 0;
    while k < required.len()
        invariant
            k <= required@.len(),
            any_positive <==> exists|i: int| 0 <= i < k && (#[trigger] required@[i]).amount > 0,
        decreases required@.len() - k,
    {
        if required[k].amount > 0 {
            any_positive = true;
        }
        k = k + 1;
    }
    if !any_positive {
        return Ok(());
    }
    let mut all_covered = true;
    let mut i: usize = 0;
    while i < required.len()
        invariant
            i <= required@.len(),
            all_covered <==> forall|t: int| 0 <= t < i ==> covers(sent@, #[trigger] required@[t]),
        decreases required@.len() - i,
    {
        let c = &required[i];
        let mut found = false;
        let mut j: usize = 0;
        while j < sent.len()
            invariant
                j <= sent@.len(),
                i < required@.len(),
                *c == required@[i as int],
                found <==> exists|u: int|
                    0 <= u < j && (#[trigger] sent@[u]).denom@ == c.denom@ && sent@[u].amount >= c.amount,
            decreases sent@.len() - j,
        {
            if sent[j].denom == c.denom && sent[j].amount >= c.amount {
                found = true;
            }
            assert(sent@[j as int] == sent[j as int]);
            j = j + 1;
        }
        all_covered = all_covered && found;
        i = i + 1;
    }
    if all_covered {
        Ok(())
    } else {
        Err(ContractError::InsufficientFundsSend {})
    }
}

/// The amount of the first coin of `coins` in denomination `denom`, or 0.
pub open spec fn matching_amount(coins: Seq<Coin>, denom: Seq<char>) -> int
    decreases coins.len(),
{
    if coins.len() == 0 {
        0
    } else if coins[0].denom@ == denom {
        coins[0].amount as int
    } else {
        matching_amount(coins.drop_first(), denom)
    }
}

proof fn lemma_matching_amount_step(coins: Seq<Coin>, j: int, denom: Seq<char>)
    requires
        0 <= j < coins.len(),
        coins[j].denom@ != denom,
    ensures
        matching_amount(coins.subrange(j, coins.len() as int), denom) == matching_amount(
            coins.subrange(j + 1, coins.len() as int),
            denom,
        ),
{
    assert(coins.subrange(j, coins.len() as int).drop_first() =~= coins.subrange(
        j + 1,
        coins.len() as int,
    ));
}

/// The amount of the first coin of `coins` in `denom`, or 0.
fn first_amount(coins: &Vec<Coin>, denom: &String) -> (r: u128)
    ensures
        r as int == matching_amount(coins@, denom@),
{
    let mut j: usize = 0;
    assert(coins@.subrange(0, coins@.len() as int) =~= coins@);
    while j < coins.len()
        invariant
            j <= coins@.len(),
            matching_amount(coins@.subrange(j as int, coins@.len() as int), denom@) == matching_amount(
                coins@,
                denom@,
            ),
        decreases coins@.len() - j,
    {
        if coins[j].denom == *denom {
            return coins[j].amount;
        }
        proof {
            lemma_matching_amount_step(coins@, j as int, denom@);
        }
        j = j + 1;
    }
    0
}

/// Adds to each coin of `coin1` the first coin of `coin2` in the same
/// denomination; coins of `coin2` in other denominations are left out.
pub fn merge_coin(coin1: Vec<Coin>, coin2: Vec<Coin>) -> (r: Vec<Coin>)
    requires
        forall|i: int|
            0 <= i < coin1@.len() ==> (#[trigger] coin1@[i]).amount + matching_amount(
                coin2@,
                coin1@[i].denom@,
            ) <= u128::MAX,
    ensures
        r@.len() == coin1@.len(),
        forall|i: int|
            0 <= i < r@.len() ==> (#[trigger] r@[i]).denom == coin1@[i].denom && r@[i].amount
                == coin1@[i].amount + matching_amount(coin2@, coin1@[i].denom@),
{
    let mut merged: Vec<Coin> = Vec::new();
    let mut i: usize = 0;
    while i < coin1.len()
        invariant
            i <= coin1@.len(),
            merged@.len() == i,
            forall|t: int|
                0 <= t < coin1@.len() ==> (#[trigger] coin1@[t]).amount + matching_amount(
                    coin2@,
                    coin1@[t].denom@,
                ) <= u128::MAX,
            forall|t: int|
                0 <= t < i ==> (#[trigger] merged@[t]).denom == coin1@[t].denom && merged@[t].amount
                    == coin1@[t].amount + matching_amount(coin2@, coin1@[t].denom@),
        decreases coin1@.len() - i,
    {
        let other = first_amount(&coin2, &coin1[i].denom);
        let c = Coin { denom: coin1[i].denom.clone(), amount: coin1[i].amount + other };
        merged.push(c);
        i = i + 1;
    }
    merged
}

} // verus!
