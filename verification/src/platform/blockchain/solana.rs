//! The Solana blockchain: the wallet whose history is read.

use crate::database::entry::platform_connection::{
    client_of, ClientView, ConnectionDataView, ConnectionView, PlatformConnection,
    PlatformConnectionData,
};
use crate::platform::exchange::coinbase::COINBASE;
use crate::platform::exchange::coinbase_pro::COINBASE_PRO;
use crate::error::CryptfolioError;
use vstd::prelude::*;

verus! {

/// The name under which connections to Solana are stored.
pub const SOLANA: &'static str = "Solana";

/// A Solana wallet, known by its address.
#[derive(Debug)]
pub struct Solana {
    wallet: String,
}

impl View for Solana {
    type V = Seq<char>;

    closed spec fn view(&self) -> Seq<char> {
        self.wallet@
    }
}

impl Solana {
    /// The wallet at the given address.
    pub fn new(wallet: String) -> (r: Result<Solana, CryptfolioError>)
        ensures
            r matches Ok(client) && client@ == wallet@,
    {
        Ok(Solana { wallet })
    }

    /// The address of the wallet.
    pub fn get_wallet(&self) -> (wallet: String)
        ensures
            wallet@ == self@,
    {
        self.wallet.clone()
    }

    /// The name of the platform.
    pub fn get_name(&self) -> (name: &'static str)
        ensures
            name@ == SOLANA@,
    {
        SOLANA
    }

    /// The connection that stores this wallet under `nickname`. The connection
    /// stands for this client again.
    pub fn get_connection(&self, nickname: &String) -> (connection: PlatformConnection)
        ensures
            client_of(connection@) == Some(ClientView::Solana(self@)),
            connection@ == (ConnectionView {
                nickname: nickname@,
                platform: SOLANA@,
                connection_data: seq![ConnectionDataView { key: "wallet"@, value: self@ }],
            }),
    {
        let mut data: Vec<PlatformConnectionData> = Vec::new();
        data.push(PlatformConnectionData::new("wallet".to_owned(), self.wallet.clone()));
        let connection = PlatformConnection::new(nickname.clone(), SOLANA.to_owned(), data);
        proof {
            reveal_strlit("Coinbase");
            reveal_strlit("Coinbase Pro");
            reveal_strlit("Solana");
            assert(COINBASE@.len() != SOLANA@.len());
            assert(COINBASE_PRO@.len() != SOLANA@.len());
        }
        assert(connection@.connection_data =~= seq![
            ConnectionDataView { key: "wallet"@, value: self@ },
        ]);
        connection
    }
}

} // verus!
