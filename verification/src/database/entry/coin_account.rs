//! The account that holds one coin on one platform.

use vstd::prelude::*;

verus! {

/// An account as a mathematical value.
pub struct CoinAccountView {
    pub id: Seq<char>,
    pub coin: Seq<char>,
    pub platform: Seq<char>,
}

/// The account that holds one coin on one platform.
#[derive(Debug)]
pub struct CoinAccount {
    /// The platform's identifier of the account.
    pub id: String,
    /// The code of the coin.
    pub coin: String,
    /// The name of the platform.
    pub platform: String,
}

impl View for CoinAccount {
    type V = CoinAccountView;

    open spec fn view(&self) -> CoinAccountView {
        CoinAccountView { id: self.id@, coin: self.coin@, platform: self.platform@ }
    }
}

impl CoinAccount {
    /// The account with the given identifier, coin and platform.
    pub fn new(id: String, coin: String, platform: String) -> (account: CoinAccount)
        ensures
            account@ == (CoinAccountView { id: id@, coin: coin@, platform: platform@ }),
    {
        CoinAccount { id, coin, platform }
    }
}

impl Default for CoinAccount {
    /// The account whose fields are all empty.
    fn default() -> (account: CoinAccount)
        ensures
            account@ == (CoinAccountView {
                id: Seq::empty(),
                coin: Seq::empty(),
                platform: Seq::empty(),
            }),
    {
        CoinAccount { id: String::new(), coin: String::new(), platform: String::new() }
    }
}

} // verus!
