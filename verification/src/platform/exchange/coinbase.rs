//! The Coinbase exchange: its credentials, and how its transactions are read.

use crate::database::entry::platform_connection::{
    client_of, ClientView, ConnectionDataView, ConnectionView, PlatformConnection,
    PlatformConnectionData,
};
use crate::error::CryptfolioError;
use crate::util::{text_view, Util};
use vstd::prelude::*;
use vstd::string::StringExecFns;

verus! {

/// The name under which connections to Coinbase are stored.
pub const COINBASE: &'static str = "Coinbase";

/// The credentials of a Coinbase account as mathematical values.
pub struct CoinbaseView {
    pub api_key: Seq<char>,
    pub api_secret: Seq<char>,
}

/// The credentials of a Coinbase account.
#[derive(Debug)]
pub struct Coinbase {
    api_key: String,
    api_secret: String,
}

impl View for Coinbase {
    type V = CoinbaseView;

    closed spec fn view(&self) -> CoinbaseView {
        CoinbaseView { api_key: self.api_key@, api_secret: self.api_secret@ }
    }
}

impl Coinbase {
    /// The credentials made of a key and a secret.
    pub fn new(api_key: &str, api_secret: &str) -> (r: Result<Coinbase, CryptfolioError>)
        ensures
            r matches Ok(client) && client@ == (CoinbaseView {
                api_key: api_key@,
                api_secret: api_secret@,
            }),
    {
        Ok(Coinbase { api_key: api_key.to_owned(), api_secret: api_secret.to_owned() })
    }

    /// The key.
    pub fn get_api_key(&self) -> (key: String)
        ensures
            key@ == self@.api_key,
    {
        self.api_key.clone()
    }

    /// The secret.
    pub fn get_api_secret(&self) -> (secret: String)
        ensures
            secret@ == self@.api_secret,
    {
        self.api_secret.clone()
    }

    /// The name of the platform.
    pub fn get_name(&self) -> (name: &'static str)
        ensures
            name@ == COINBASE@,
    {
        COINBASE
    }

    /// The connection that stores these credentials under `nickname`: the key
    /// first, the secret second. The connection stands for this client again.
    pub fn get_connection(&self, nickname: &String) -> (connection: PlatformConnection)
        ensures
            client_of(connection@) == Some(ClientView::Coinbase(self@)),
            connection@ == (ConnectionView {
                nickname: nickname@,
                platform: COINBASE@,
                connection_data: seq![
                    ConnectionDataView { key: "api_key"@, value: self@.api_key },
                    ConnectionDataView { key: "api_secret"@, value: self@.api_secret },
                ],
            }),
    {
        let mut data: Vec<PlatformConnectionData> = Vec::new();
        data.push(PlatformConnectionData::new("api_key".to_owned(), self.api_key.clone()));
        data.push(PlatformConnectionData::new("api_secret".to_owned(), self.api_secret.clone()));
        let connection = PlatformConnection::new(nickname.clone(), COINBASE.to_owned(), data);
        assert(connection@.connection_data =~= seq![
            ConnectionDataView { key: "api_key"@, value: self@.api_key },
            ConnectionDataView { key: "api_secret"@, value: self@.api_secret },
        ]);
        connection
    }
}

/// The fewest bytes in the identifier of an account that is set up for use.
pub const ACCOUNT_ID_BYTES: usize = 10;

/// What a transaction of Coinbase is taken for.
#[derive(Debug, Clone, Copy, PartialEq, Eq, Structural)]
pub enum TransactionKind {
    /// A reward for a lesson: a reward of the kind `Learn & Earn`.
    EarnReward,
    /// A reward for staking, received as a transfer.
    StakingReward,
    /// Interest, booked as a reward for staking.
    InterestReward,
    /// Coins received from another account.
    IncomingTransfer,
    /// Coins sent to an address.
    OutgoingTransfer,
    /// A purchase of coins.
    Purchase,
    /// Money paid in from a bank.
    FiatDeposit,
    /// Money moved to Coinbase Pro.
    ExchangeDeposit,
    /// Money moved back from Coinbase Pro.
    ExchangeWithdrawal,
    /// Coins moved to Coinbase Pro.
    ProDeposit,
    /// Coins moved back from Coinbase Pro.
    ProWithdrawal,
    /// One fill of an advanced trade: an order whose side the sign of the
    /// amount decides.
    AdvancedTradeFill,
    /// One side of a trade of one coin for another.
    Trade,
    /// An order of a currency against itself, which is passed over.
    Redundant,
}

/// How Coinbase's transactions are read: the type decides, for a `send` also
/// who sent or received and what the subtitle says, and for an order whether
/// it trades a currency against itself. No kind for a `send` without sender
/// and recipient, nor for a type that is not known.
pub open spec fn transaction_kind(
    type_transaction: Seq<char>,
    has_sender: bool,
    subtitle: Option<Seq<char>>,
    has_recipient: bool,
    same_currency: bool,
) -> Option<TransactionKind> {
    if type_transaction == "send"@ {
        if has_sender {
            if subtitle == Some("From Coinbase Earn"@) {
                Some(TransactionKind::EarnReward)
            } else if subtitle == Some("From Coinbase Rewards"@) {
                Some(TransactionKind::StakingReward)
            } else {
                Some(TransactionKind::IncomingTransfer)
            }
        } else if has_recipient {
            Some(TransactionKind::OutgoingTransfer)
        } else {
            None
        }
    } else if type_transaction == "interest"@ {
        Some(TransactionKind::InterestReward)
    } else if type_transaction == "buy"@ {
        if same_currency {
            Some(TransactionKind::Redundant)
        } else {
            Some(TransactionKind::Purchase)
        }
    } else if type_transaction == "fiat_deposit"@ {
        Some(TransactionKind::FiatDeposit)
    } else if type_transaction == "exchange_deposit"@ {
        Some(TransactionKind::ExchangeDeposit)
    } else if type_transaction == "exchange_withdrawal"@ {
        Some(TransactionKind::ExchangeWithdrawal)
    } else if type_transaction == "pro_deposit"@ {
        Some(TransactionKind::ProDeposit)
    } else if type_transaction == "pro_withdrawal"@ {
        Some(TransactionKind::ProWithdrawal)
    } else if type_transaction == "advanced_trade_fill"@ {
        if same_currency {
            Some(TransactionKind::Redundant)
        } else {
            Some(TransactionKind::AdvancedTradeFill)
        }
    } else if type_transaction == "trade"@ {
        Some(TransactionKind::Trade)
    } else {
        None
    }
}

/// Whether a subtitle is there and reads as `words`.
fn subtitle_is(subtitle: &Option<&str>, words: &str) -> (same: bool)
    ensures
        same == (text_view(*subtitle) == Some(words@)),
{
    match subtitle {
        Some(text) => Util::same_text(text, words),
        None => false,
    }
}

impl Coinbase {
    /// Whether an account is set up for use: one that is not has no proper
    /// identifier, and its transactions are not asked for.
    pub fn is_initialized_account(account_id: &str) -> (initialized: bool)
        ensures
            initialized == (account_id.len() >= ACCOUNT_ID_BYTES),
    {
        account_id.len() >= ACCOUNT_ID_BYTES
    }

    /// What a transaction is taken for. Fails with `CoinbaseAPIError` on a
    /// `send` that names neither sender nor recipient, and with `SyncError`,
    /// which quotes the type, on a type that is not known.
    pub fn process_transaction(
        type_transaction: &str,
        has_sender: bool,
        subtitle: Option<&str>,
        has_recipient: bool,
        same_currency: bool,
    ) -> (r: Result<TransactionKind, CryptfolioError>)
        ensures
            match r {
                Ok(kind) => transaction_kind(
                    type_transaction@,
                    has_sender,
                    text_view(subtitle),
                    has_recipient,
                    same_currency,
                ) == Some(kind),
                Err(e) => {
                    &&& transaction_kind(
                        type_transaction@,
                        has_sender,
                        text_view(subtitle),
                        has_recipient,
                        same_currency,
                    ) is None
                    &&& if type_transaction@ == "send"@ {
                        e matches CryptfolioError::CoinbaseAPIError(message) && message@
                            == "Failed to parse 'send' transaction"@
                    } else {
                        e matches CryptfolioError::SyncError(message) && message@
                            == "Unknown type of transaction '"@ + type_transaction@ + "'"@
                    }
                },
            },
    {
        if Util::same_text(type_transaction, "send") {
            if has_sender {
                if subtitle_is(&subtitle, "From Coinbase Earn") {
                    Ok(TransactionKind::EarnReward)
                } else if subtitle_is(&subtitle, "From Coinbase Rewards") {
                    Ok(TransactionKind::StakingReward)
                } else {
                    Ok(TransactionKind::IncomingTransfer)
                }
            } else if has_recipient {
                Ok(TransactionKind::OutgoingTransfer)
            } else {
                Err(
                    CryptfolioError::CoinbaseAPIError(
                        "Failed to parse 'send' transaction".to_owned(),
                    ),
                )
            }
        } else if Util::same_text(type_transaction, "interest") {
            Ok(TransactionKind::InterestReward)
        } else if Util::same_text(type_transaction, "buy") {
            if same_currency {
                Ok(TransactionKind::Redundant)
            } else {
                Ok(TransactionKind::Purchase)
            }
        } else if Util::same_text(type_transaction, "fiat_deposit") {
            Ok(TransactionKind::FiatDeposit)
        } else if Util::same_text(type_transaction, "exchange_deposit") {
            Ok(TransactionKind::ExchangeDeposit)
        } else if Util::same_text(type_transaction, "exchange_withdrawal") {
            Ok(TransactionKind::ExchangeWithdrawal)
        } else if Util::same_text(type_transaction, "pro_deposit") {
            Ok(TransactionKind::ProDeposit)
        } else if Util::same_text(type_transaction, "pro_withdrawal") {
            Ok(TransactionKind::ProWithdrawal)
        } else if Util::same_text(type_transaction, "advanced_trade_fill") {
            if same_currency {
                Ok(TransactionKind::Redundant)
            } else {
                Ok(TransactionKind::AdvancedTradeFill)
            }
        } else if Util::same_text(type_transaction, "trade") {
            Ok(TransactionKind::Trade)
        } else {
            let quoted = "Unknown type of transaction '".to_owned().concat(type_transaction);
            Err(CryptfolioError::SyncError(quoted.concat("'")))
        }
    }
}

} // verus!
