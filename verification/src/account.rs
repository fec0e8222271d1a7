//! Miner accounts: how an account is named, and how its address is read from
//! what the account tool prints.

use crate::error::Error;
use crate::text::{decimal, decimal_string, same_text, split_whitespace, tokens};
use vstd::prelude::*;
use vstd::string::*;

verus! {

/// A provisioned miner identity.
#[derive(Clone, Debug, PartialEq, Eq)]
pub struct MinerAccount {
    pub name: String,
    pub address: String,
}

/// The mathematical content of a [`MinerAccount`].
pub ghost struct MinerAccountView {
    pub name: Seq<char>,
    pub address: Seq<char>,
}

impl View for MinerAccount {
    type V = MinerAccountView;

    open spec fn view(&self) -> MinerAccountView {
        MinerAccountView { name: self.name@, address: self.address@ }
    }
}

/// The suffix of an account name: the low byte of the time, in seconds.
pub open spec fn suffix_of(clock: u64) -> nat {
    (clock % 256) as nat
}

/// The name of the account of miner `index`, generated at time `clock`: the
/// word `miner`, the index and the suffix, joined by hyphens.
pub open spec fn account_name(index: u8, clock: u64) -> Seq<char> {
    "miner-"@ + decimal(index as nat) + "-"@ + decimal(suffix_of(clock))
}

/// Derives the account name of miner `index` at time `clock`.
pub fn miner_name(index: u8, clock: u64) -> (r: String)
    ensures
        r@ == account_name(index, clock),
{
    let mut r = String::from_str("miner-");
    let number = decimal_string(index as u64);
    r.append(number.as_str());
    r.append("-");
    let suffix = decimal_string(clock % 256);
    r.append(suffix.as_str());
    r
}

/// The token that follows the first occurrence of `key` among `words`, if
/// `key` occurs and is not the last word.
pub open spec fn following(words: Seq<Seq<char>>, key: Seq<char>) -> Option<Seq<char>>
    decreases words.len(),
{
    if words.len() == 0 {
        None
    } else if words[0] == key {
        if words.len() > 1 {
            Some(words[1])
        } else {
            None
        }
    } else {
        following(words.drop_first(), key)
    }
}

/// The address that the account tool's output names: the token after the
/// first token `address`.
pub open spec fn address_in(output: Seq<char>) -> Option<Seq<char>> {
    following(tokens(output), "address"@)
}

/// Reads the address from the account tool's output. The output is scanned
/// token by token for the word `address`; the token after it is the address.
/// Where the word never appears, or nothing follows it, there is none.
pub fn resolve_address(output: &str) -> (r: Result<String, Error>)
    ensures
        match r {
            Ok(address) => address_in(output@) == Some(address@),
            Err(e) => address_in(output@) is None && e == Error::NotFound,
        },
{
    let words = split_whitespace(output);
    let ghost all = words.deep_view();
    let mut i: usize = 0;
    assert(all.skip(0) =~= all);
    while i < words.len()
        invariant
            i <= words.len(),
            all == words.deep_view(),
            all == tokens(output@),
            following(all, "address"@) == following(all.skip(i as int), "address"@),
        decreases words.len() - i,
    {
        let ghost rest = all.skip(i as int);
        assert(rest[0] == words[i as int]@);
        if same_text(words[i].as_str(), "address") {
            if i + 1 < words.len() {
                assert(rest[1] == words[i + 1]@);
                return Ok(words[i + 1].clone());
            } else {
                return Err(Error::NotFound);
            }
        }
        assert(rest.drop_first() =~= all.skip(i + 1));
        i = i + 1;
    }
    Err(Error::NotFound)
}

/// The account of miner `index` that was created at time `clock`, as the
/// account tool's output tells it.
pub open spec fn account_of(index: u8, clock: u64, output: Seq<char>) -> Result<
    MinerAccountView,
    Error,
> {
    match address_in(output) {
        Some(address) => Ok(MinerAccountView { name: account_name(index, clock), address }),
        None => Err(Error::NotFound),
    }
}

/// Puts together the identity of miner `index` from the time at which its
/// name was made and from what the account tool printed.
pub fn provision(index: u8, clock: u64, output: &str) -> (r: Result<MinerAccount, Error>)
    ensures
        match r {
            Ok(account) => account_of(index, clock, output@) == Ok::<MinerAccountView, Error>(
                account@,
            ),
            Err(e) => account_of(index, clock, output@) == Err::<MinerAccountView, Error>(e),
        },
{
    match resolve_address(output) {
        Ok(address) => Ok(MinerAccount { name: miner_name(index, clock), address }),
        Err(e) => Err(e),
    }
}

/// What `following` finds is the successor of the first occurrence of the
/// key. It finds nothing exactly if the key does not occur before the last
/// word.
pub proof fn lemma_following(words: Seq<Seq<char>>, key: Seq<char>)
    ensures
        match following(words, key) {
            Some(found) => exists|i: int|
                0 <= i && i + 1 < words.len() && #[trigger] words[i] == key && words[i + 1] == found
                    && forall|j: int| 0 <= j < i ==> #[trigger] words[j] != key,
            None => forall|i: int| 0 <= i && i + 1 < words.len() ==> #[trigger] words[i] != key,
        },
    decreases words.len(),
{
    if words.len() == 0 {
    } else if words[0] == key {
        if words.len() > 1 {
            assert(words[0] == key && words[1] == following(words, key)->0);
        }
    } else {
        let rest = words.drop_first();
        lemma_following(rest, key);
        match following(rest, key) {
            Some(found) => {
                let i = choose|i: int|
                    0 <= i && i + 1 < rest.len() && #[trigger] rest[i] == key && rest[i + 1]
                        == found && forall|j: int| 0 <= j < i ==> #[trigger] rest[j] != key;
                assert(words[i + 1] == key && words[i + 2] == found);
                assert forall|j: int| 0 <= j < i + 1 implies #[trigger] words[j] != key by {
                    if j > 0 {
                        assert(words[j] == rest[j - 1]);
                    }
                }
            },
            None => {
                assert forall|i: int| 0 <= i && i + 1 < words.len() implies #[trigger] words[i]
                    != key by {
                    if i > 0 {
                        assert(words[i] == rest[i - 1]);
                    }
                }
            },
        }
    }
}

} // verus!
