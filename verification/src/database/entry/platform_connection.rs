//! A stored connection to a platform, and the client that it stands for.

use crate::platform::blockchain::solana::{Solana, SOLANA};
use crate::platform::exchange::coinbase::{Coinbase, CoinbaseView, COINBASE};
use crate::platform::exchange::coinbase_pro::{CoinbasePro, CoinbaseProView, COINBASE_PRO};
use crate::util::Util;
use vstd::prelude::*;
use vstd::string::{StrSliceExecFns, StringExecFns};

verus! {

/// One stored setting as a mathematical value.
pub struct ConnectionDataView {
    pub key: Seq<char>,
    pub value: Seq<char>,
}

/// One setting of a connection: a name and what is stored under it.
#[derive(Debug)]
pub struct PlatformConnectionData {
    pub key: String,
    pub value: String,
}

impl View for PlatformConnectionData {
    type V = ConnectionDataView;

    open spec fn view(&self) -> ConnectionDataView {
        ConnectionDataView { key: self.key@, value: self.value@ }
    }
}

impl PlatformConnectionData {
    /// The setting that stores `value` under `key`.
    pub fn new(key: String, value: String) -> (data: PlatformConnectionData)
        ensures
            data@ == (ConnectionDataView { key: key@, value: value@ }),
    {
        PlatformConnectionData { key, value }
    }
}

/// A stored connection as a mathematical value.
pub struct ConnectionView {
    pub nickname: Seq<char>,
    pub platform: Seq<char>,
    pub connection_data: Seq<ConnectionDataView>,
}

/// A connection to a platform as it is stored: the user's name for it, the
/// platform's name, and the settings that the platform's client is made of.
#[derive(Debug)]
pub struct PlatformConnection {
    pub nickname: String,
    pub platform: String,
    pub connection_data: Vec<PlatformConnectionData>,
}

impl View for PlatformConnection {
    type V = ConnectionView;

    open spec fn view(&self) -> ConnectionView {
        ConnectionView {
            nickname: self.nickname@,
            platform: self.platform@,
            connection_data: self.connection_data@.map_values(
                |data: PlatformConnectionData| data@,
            ),
        }
    }
}

/// The client of one of the platforms.
#[derive(Debug)]
pub enum PlatformClient {
    Coinbase(Coinbase),
    CoinbasePro(CoinbasePro),
    Solana(Solana),
}

/// A client as a mathematical value.
pub enum ClientView {
    Coinbase(CoinbaseView),
    CoinbasePro(CoinbaseProView),
    Solana(Seq<char>),
}

impl View for PlatformClient {
    type V = ClientView;

    open spec fn view(&self) -> ClientView {
        match self {
            PlatformClient::Coinbase(client) => ClientView::Coinbase(client@),
            PlatformClient::CoinbasePro(client) => ClientView::CoinbasePro(client@),
            PlatformClient::Solana(client) => ClientView::Solana(client@),
        }
    }
}

/// The client that a stored connection stands for: the platform's name picks
/// the kind of client, and the settings supply, in their order, what the
/// client is made of. No client where the name is unknown or settings are
/// missing.
pub open spec fn client_of(connection: ConnectionView) -> Option<ClientView> {
    let data = connection.connection_data;
    if connection.platform == COINBASE@ {
        if data.len() >= 2 {
            Some(
                ClientView::Coinbase(
                    CoinbaseView { api_key: data[0].value, api_secret: data[1].value },
                ),
            )
        } else {
            None
        }
    } else if connection.platform == COINBASE_PRO@ {
        if data.len() >= 3 {
            Some(
                ClientView::CoinbasePro(
                    CoinbaseProView {
                        api_key: data[0].value,
                        api_secret: data[1].value,
                        passphrase: data[2].value,
                    },
                ),
            )
        } else {
            None
        }
    } else if connection.platform == SOLANA@ {
        if data.len() >= 1 {
            Some(ClientView::Solana(data[0].value))
        } else {
            None
        }
    } else {
        None
    }
}

impl PlatformConnection {
    /// The connection made of a nickname, a platform's name and settings.
    pub fn new(
        nickname: String,
        platform: String,
        connection_data: Vec<PlatformConnectionData>,
    ) -> (connection: PlatformConnection)
        ensures
            connection@ == (ConnectionView {
                nickname: nickname@,
                platform: platform@,
                connection_data: connection_data@.map_values(|data: PlatformConnectionData| data@),
            }),
            connection.connection_data == connection_data,
    {
        PlatformConnection { nickname, platform, connection_data }
    }

    /// The client that the connection stands for, if its platform is known and
    /// its settings suffice.
    pub fn to_concrete_type(&self) -> (client: Option<PlatformClient>)
        ensures
            match client {
                Some(client) => client_of(self@) == Some(client@),
                None => client_of(self@) is None,
            },
    {
        let data = &self.connection_data;
        if Util::same_text(self.platform.as_str(), COINBASE) {
            if data.len() >= 2 {
                match Coinbase::new(data[0].value.as_str(), data[1].value.as_str()) {
                    Ok(client) => Some(PlatformClient::Coinbase(client)),
                    Err(_) => None,
                }
            } else {
                None
            }
        } else if Util::same_text(self.platform.as_str(), COINBASE_PRO) {
            if data.len() >= 3 {
                match CoinbasePro::new(
                    data[0].value.as_str(),
                    data[1].value.as_str(),
                    data[2].value.as_str(),
                ) {
                    Ok(client) => Some(PlatformClient::CoinbasePro(client)),
                    Err(_) => None,
                }
            } else {
                None
            }
        } else if Util::same_text(self.platform.as_str(), SOLANA) {
            if data.len() >= 1 {
                match Solana::new(data[0].value.clone()) {
                    Ok(client) => Some(PlatformClient::Solana(client)),
                    Err(_) => None,
                }
            } else {
                None
            }
        } else {
            None
        }
    }
}

/// What stands for the nickname of a key that holds none.
pub const UNDEFINED: &'static str = "UNDEFINED";

/// The key under which a connection is held: the platform's name, a colon, and
/// the nickname.
pub open spec fn key_of(platform: Seq<char>, nickname: Seq<char>) -> Seq<char> {
    platform + ":"@ + nickname
}

/// The position of the first colon of `text` at or after `from`, and the
/// length of the text where there is none.
pub open spec fn next_colon(text: Seq<char>, from: int) -> int
    decreases text.len() - from,
{
    if from < 0 || from >= text.len() {
        text.len() as int
    } else if text[from] == ':' {
        from
    } else {
        next_colon(text, from + 1)
    }
}

/// The nickname in a key: what stands between its first colon and its second,
/// or its end. A key without a colon holds no nickname.
pub open spec fn nickname_in(key: Seq<char>) -> Seq<char> {
    let first = next_colon(key, 0);
    if first >= key.len() {
        UNDEFINED@
    } else {
        key.subrange(first + 1, next_colon(key, first + 1))
    }
}

/// A search passes over a stretch without colons.
proof fn lemma_next_colon_passes(text: Seq<char>, from: int, to: int)
    requires
        0 <= from <= to <= text.len(),
        forall|i: int| from <= i < to ==> text[i] != ':',
    ensures
        next_colon(text, from) == next_colon(text, to),
    decreases to - from,
{
    if from < to {
        lemma_next_colon_passes(text, from + 1, to);
    }
}

/// The nickname comes back out of the key, where neither it nor the
/// platform's name holds a colon.
pub proof fn law_nickname_of_key(platform: Seq<char>, nickname: Seq<char>)
    requires
        forall|i: int| 0 <= i < platform.len() ==> platform[i] != ':',
        forall|i: int| 0 <= i < nickname.len() ==> nickname[i] != ':',
    ensures
        nickname_in(key_of(platform, nickname)) == nickname,
{
    reveal_strlit(":");
    let key = key_of(platform, nickname);
    let at = platform.len() as int;
    assert forall|i: int| 0 <= i < at implies key[i] != ':' by {
        assert(key[i] == platform[i]);
    }
    assert forall|i: int| at + 1 <= i < key.len() implies key[i] != ':' by {
        assert(key[i] == nickname[i - at - 1]);
    }
    lemma_next_colon_passes(key, 0, at);
    lemma_next_colon_passes(key, at + 1, key.len() as int);
}

/// The position of the first colon of `text` at or after `from`.
fn find_colon(text: &str, from: usize, len: usize) -> (at: usize)
    requires
        len == text@.len(),
        from <= len,
    ensures
        at == next_colon(text@, from as int),
        from <= at <= len,
{
    let mut i: usize = from;
    while i < len
        invariant
            from <= i <= len,
            len == text@.len(),
            next_colon(text@, from as int) == next_colon(text@, i as int),
        decreases len - i,
    {
        if text.get_char(i) == ':' {
            return i;
        }
        i = i + 1;
    }
    i
}

impl PlatformConnection {
    /// The key under which the connection is held.
    pub fn key(&self) -> (key: String)
        ensures
            key@ == key_of(self@.platform, self@.nickname),
    {
        self.platform.clone().concat(":").concat(self.nickname.as_str())
    }

    /// The nickname in a key, and `UNDEFINED` for a key that holds none.
    pub fn nickname_of(key: &str) -> (nickname: String)
        ensures
            nickname@ == nickname_in(key@),
    {
        let len = key.unicode_len();
        let first = find_colon(key, 0, len);
        if first >= len {
            UNDEFINED.to_owned()
        } else {
            let second = find_colon(key, first + 1, len);
            key.substring_char(first + 1, second).to_owned()
        }
    }
}

} // verus!
