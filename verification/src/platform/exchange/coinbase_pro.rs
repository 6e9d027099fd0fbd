//! The Coinbase Pro exchange: its credentials, and how its transfers are read.

use crate::database::entry::platform_connection::{
    client_of, ClientView, ConnectionDataView, ConnectionView, PlatformConnection,
    PlatformConnectionData,
};
use crate::platform::exchange::coinbase::COINBASE;
use crate::error::CryptfolioError;
use crate::util::{text_view, Util};
use vstd::prelude::*;

verus! {

/// The name under which connections to Coinbase Pro are stored.
pub const COINBASE_PRO: &'static str = "Coinbase Pro";

/// The credentials of a Coinbase Pro account as mathematical values.
pub struct CoinbaseProView {
    pub api_key: Seq<char>,
    pub api_secret: Seq<char>,
    pub passphrase: Seq<char>,
}

/// The credentials of a Coinbase Pro account.
#[derive(Debug)]
pub struct CoinbasePro {
    api_key: String,
    api_secret: String,
    passphrase: String,
}

impl View for CoinbasePro {
    type V = CoinbaseProView;

    closed spec fn view(&self) -> CoinbaseProView {
        CoinbaseProView {
            api_key: self.api_key@,
            api_secret: self.api_secret@,
            passphrase: self.passphrase@,
        }
    }
}

impl CoinbasePro {
    /// The credentials made of a key, a secret and a passphrase.
    pub fn new(api_key: &str, api_secret: &str, passphrase: &str) -> (r: Result<
        CoinbasePro,
        CryptfolioError,
    >)
        ensures
            r matches Ok(client) && client@ == (CoinbaseProView {
                api_key: api_key@,
                api_secret: api_secret@,
                passphrase: passphrase@,
            }),
    {
        Ok(
            CoinbasePro {
                api_key: api_key.to_owned(),
                api_secret: api_secret.to_owned(),
                passphrase: passphrase.to_owned(),
            },
        )
    }

    /// The key.
    pub fn get_api_key(&self) -> (key: String)
        ensures
            key@ == self@.api_key,
    {
        self.api_key.clone()
    }

    /// The secret.
    pub fn get_api_secret(&self) -> (secret: String)
        ensures
            secret@ == self@.api_secret,
    {
        self.api_secret.clone()
    }

    /// The passphrase.
    pub fn get_api_passphrase(&self) -> (passphrase: String)
        ensures
            passphrase@ == self@.passphrase,
    {
        self.passphrase.clone()
    }

    /// The name of the platform.
    pub fn get_name(&self) -> (name: &'static str)
        ensures
            name@ == COINBASE_PRO@,
    {
        COINBASE_PRO
    }

    /// The connection that stores these credentials under `nickname`: the key
    /// first, the secret second, the passphrase third. The connection stands
    /// for this client again.
    pub fn get_connection(&self, nickname: &String) -> (connection: PlatformConnection)
        ensures
            client_of(connection@) == Some(ClientView::CoinbasePro(self@)),
            connection@ == (ConnectionView {
                nickname: nickname@,
                platform: COINBASE_PRO@,
                connection_data: seq![
                    ConnectionDataView { key: "api_key"@, value: self@.api_key },
                    ConnectionDataView { key: "api_secret"@, value: self@.api_secret },
                    ConnectionDataView { key: "passphrase"@, value: self@.passphrase },
                ],
            }),
    {
        let mut data: Vec<PlatformConnectionData> = Vec::new();
        data.push(PlatformConnectionData::new("api_key".to_owned(), self.api_key.clone()));
        data.push(PlatformConnectionData::new("api_secret".to_owned(), self.api_secret.clone()));
        data.push(PlatformConnectionData::new("passphrase".to_owned(), self.passphrase.clone()));
        let connection = PlatformConnection::new(nickname.clone(), COINBASE_PRO.to_owned(), data);
        proof {
            reveal_strlit("Coinbase");
            reveal_strlit("Coinbase Pro");
            assert(COINBASE@.len() != COINBASE_PRO@.len());
        }
        assert(connection@.connection_data =~= seq![
            ConnectionDataView { key: "api_key"@, value: self@.api_key },
            ConnectionDataView { key: "api_secret"@, value: self@.api_secret },
            ConnectionDataView { key: "passphrase"@, value: self@.passphrase },
        ]);
        connection
    }
}

/// What is known of the fee of a transfer.
#[derive(Debug, Clone, Copy, PartialEq, Eq, Structural)]
pub enum TransferFee {
    /// Nothing is known of it.
    Unknown,
    /// There is none: the transfer is between the two exchanges.
    Free,
    /// The transfer states it.
    Stated,
}

/// Where a transfer comes from and goes to, as mathematical values.
pub struct RouteView {
    pub origin: Seq<char>,
    pub destination: Seq<char>,
    pub fee: TransferFee,
}

/// Where a transfer comes from and goes to.
#[derive(Debug)]
pub struct TransferRoute {
    /// The account or address that sent; empty where it is not known.
    pub origin: String,
    /// The account or address that received; empty where it is not known.
    pub destination: String,
    /// What is known of the fee.
    pub fee: TransferFee,
}

impl View for TransferRoute {
    type V = RouteView;

    open spec fn view(&self) -> RouteView {
        RouteView { origin: self.origin@, destination: self.destination@, fee: self.fee }
    }
}

/// How the transfers of an account are read.
///
/// A deposit from an address has no known origin and no known fee; any other
/// deposit comes free from the Coinbase account that it names. A withdrawal to
/// an address goes there and states its fee; any other goes free to the
/// Coinbase account that it names. A transfer of another type leads nowhere.
/// There is no route where the Coinbase account is needed and not named.
pub open spec fn transfer_route(
    type_transfer: Seq<char>,
    account_id: Seq<char>,
    from_address: bool,
    sent_to_address: Option<Seq<char>>,
    coinbase_account_id: Option<Seq<char>>,
) -> Option<RouteView> {
    if type_transfer == "deposit"@ {
        if from_address {
            Some(
                RouteView {
                    origin: Seq::empty(),
                    destination: account_id,
                    fee: TransferFee::Unknown,
                },
            )
        } else {
            match coinbase_account_id {
                Some(coinbase) => Some(
                    RouteView { origin: coinbase, destination: account_id, fee: TransferFee::Free },
                ),
                None => None,
            }
        }
    } else if type_transfer == "withdraw"@ {
        match sent_to_address {
            Some(address) => Some(
                RouteView { origin: account_id, destination: address, fee: TransferFee::Stated },
            ),
            None => match coinbase_account_id {
                Some(coinbase) => Some(
                    RouteView { origin: account_id, destination: coinbase, fee: TransferFee::Free },
                ),
                None => None,
            },
        }
    } else {
        Some(
            RouteView {
                origin: Seq::empty(),
                destination: Seq::empty(),
                fee: TransferFee::Unknown,
            },
        )
    }
}

impl CoinbasePro {
    /// Where a transfer of the account `account_id` comes from and goes to, and
    /// what is known of its fee.
    pub fn process_transfer(
        type_transfer: &str,
        account_id: &str,
        from_address: bool,
        sent_to_address: Option<&str>,
        coinbase_account_id: Option<&str>,
    ) -> (route: Option<TransferRoute>)
        ensures
            match route {
                Some(route) => transfer_route(
                    type_transfer@,
                    account_id@,
                    from_address,
                    text_view(sent_to_address),
                    text_view(coinbase_account_id),
                ) == Some(route@),
                None => transfer_route(
                    type_transfer@,
                    account_id@,
                    from_address,
                    text_view(sent_to_address),
                    text_view(coinbase_account_id),
                ) is None,
            },
    {
        if Util::same_text(type_transfer, "deposit") {
            if from_address {
                Some(
                    TransferRoute {
                        origin: String::new(),
                        destination: account_id.to_owned(),
                        fee: TransferFee::Unknown,
                    },
                )
            } else {
                match coinbase_account_id {
                    Some(coinbase) => Some(
                        TransferRoute {
                            origin: coinbase.to_owned(),
                            destination: account_id.to_owned(),
                            fee: TransferFee::Free,
                        },
                    ),
                    None => None,
                }
            }
        } else if Util::same_text(type_transfer, "withdraw") {
            match sent_to_address {
                Some(address) => Some(
                    TransferRoute {
                        origin: account_id.to_owned(),
                        destination: address.to_owned(),
                        fee: TransferFee::Stated,
                    },
                ),
                None => match coinbase_account_id {
                    Some(coinbase) => Some(
                        TransferRoute {
                            origin: account_id.to_owned(),
                            destination: coinbase.to_owned(),
                            fee: TransferFee::Free,
                        },
                    ),
                    None => None,
                },
            }
        } else {
            Some(
                TransferRoute {
                    origin: String::new(),
                    destination: String::new(),
                    fee: TransferFee::Unknown,
                },
            )
        }
    }
}

} // verus!
