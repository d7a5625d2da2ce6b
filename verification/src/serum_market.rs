use safe_transmute::transmute_one_pedantic;
use serum_dex::error::DexError;
use serum_dex::state::{Market, MarketState, MarketStateV2};
use solana_program::program_error::ProgramError;
use solana_program::program_pack::Pack;
use solana_program::pubkey::Pubkey;
use spl_token::state::Mint;
use serde_json::Value;
use std::str::FromStr;
use vstd::prelude::*;

verus! {

/// Why reading the Serum markets failed.
#[derive(Clone, Copy, Debug, PartialEq, Eq, Structural)]
pub enum SerumError {
    /// A market of the list has no boolean `deprecated` field.
    UnableToGetDeprecatedState,
    /// The `name` field of a market of the list is missing or not a string.
    UnableToGetName(FieldError),
    /// The `address` field of a market of the list is missing or not a string.
    UnableToGetAddress(FieldError),
    /// The address of a market is not a valid public key.
    InvalidPubkey,
    /// A market account is too short to hold its head and tail padding.
    AccountTooSmall,
    /// A market account does not start with the head padding.
    HeadPaddingMismatch,
    /// A market account does not end with the tail padding.
    TailPaddingMismatch,
    /// The flags of a market account cannot be read or name no known flag.
    InvalidMarketFlags,
    /// The response with the list of markets is not JSON.
    UnableToDeserializeMarkets,
    /// The response with the list of markets is not a JSON array.
    MarketsNotArray,
    /// A market account does not hold exactly one market state.
    InvalidMarketStateSize,
    /// The flags of a market state are not those of an initialized market.
    InvalidMarketState,
    /// A mint account does not hold a valid mint.
    InvalidMintData,
    /// A market name does not hold the `/` between its two currencies.
    InvalidMarketName,
}

/// The text that describes an error, its cause after a colon where the
/// error has one.
pub open spec fn serum_error_text(e: SerumError) -> Seq<char> {
    match e {
        SerumError::UnableToGetDeprecatedState => "Unable to get deprecated state market from Serum"@,
        SerumError::UnableToGetName(FieldError::Missing) => "Unable to get name market from Serum: Unable to get name from JSON value"@,
        SerumError::UnableToGetName(FieldError::NotString) => "Unable to get name market from Serum: Unable to get name as string from JSON value"@,
        SerumError::UnableToGetAddress(FieldError::Missing) => "Unable to get market address: Unable to get address from JSON value"@,
        SerumError::UnableToGetAddress(FieldError::NotString) => "Unable to get market address: Unable to get address as string from JSON value"@,
        SerumError::InvalidPubkey => "Invalid pubkey constant string specified"@,
        SerumError::AccountTooSmall => "Market account is too small to hold its padding"@,
        SerumError::HeadPaddingMismatch => "Market account does not start with its head padding"@,
        SerumError::TailPaddingMismatch => "Market account does not end with its tail padding"@,
        SerumError::InvalidMarketFlags => "Unable to read the flags of the market account"@,
        SerumError::UnableToDeserializeMarkets => "Unable to deserialize response from Serum markets list"@,
        SerumError::MarketsNotArray => "Unable to get markets array from Serum"@,
        SerumError::InvalidMarketStateSize => "Market account does not hold exactly one market state"@,
        SerumError::InvalidMarketState => "Market state is not that of an initialized market"@,
        SerumError::InvalidMintData => "Mint account does not hold a valid mint"@,
        SerumError::InvalidMarketName => "Market name has no / between its currencies"@,
    }
}

impl SerumError {
    /// The text that describes the error (see `serum_error_text`).
    pub fn message(&self) -> (r: String)
        ensures
            r@ == serum_error_text(*self),
    {
        match self {
            SerumError::UnableToGetDeprecatedState => "Unable to get deprecated state market from Serum".to_owned(),
            SerumError::UnableToGetName(FieldError::Missing) => "Unable to get name market from Serum: Unable to get name from JSON value".to_owned(),
            SerumError::UnableToGetName(FieldError::NotString) => "Unable to get name market from Serum: Unable to get name as string from JSON value".to_owned(),
            SerumError::UnableToGetAddress(FieldError::Missing) => "Unable to get market address: Unable to get address from JSON value".to_owned(),
            SerumError::UnableToGetAddress(FieldError::NotString) => "Unable to get market address: Unable to get address as string from JSON value".to_owned(),
            SerumError::InvalidPubkey => "Invalid pubkey constant string specified".to_owned(),
            SerumError::AccountTooSmall => "Market account is too small to hold its padding".to_owned(),
            SerumError::HeadPaddingMismatch => "Market account does not start with its head padding".to_owned(),
            SerumError::TailPaddingMismatch => "Market account does not end with its tail padding".to_owned(),
            SerumError::InvalidMarketFlags => "Unable to read the flags of the market account".to_owned(),
            SerumError::UnableToDeserializeMarkets => "Unable to deserialize response from Serum markets list".to_owned(),
            SerumError::MarketsNotArray => "Unable to get markets array from Serum".to_owned(),
            SerumError::InvalidMarketStateSize => "Market account does not hold exactly one market state".to_owned(),
            SerumError::InvalidMarketState => "Market state is not that of an initialized market".to_owned(),
            SerumError::InvalidMintData => "Mint account does not hold a valid mint".to_owned(),
            SerumError::InvalidMarketName => "Market name has no / between its currencies".to_owned(),
        }
    }
}

/// Why a text field of a JSON object could not be read.
#[derive(Clone, Copy, Debug, PartialEq, Eq, Structural)]
pub enum FieldError {
    /// The object has no field of that name.
    Missing,
    /// The field holds another JSON value than a string.
    NotString,
}

/// A market of the list that the exchange publishes, as the fields that are
/// read from it: `deprecated` is `None` when it is missing or not a boolean;
/// `name` and `address` say why they could not be read as text.
#[derive(Debug)]
pub struct MarketListing {
    pub deprecated: Option<bool>,
    pub name: Result<String, FieldError>,
    pub address: Result<String, FieldError>,
}

/// A market whose state is to be loaded: its name and the public key of its
/// account.
#[derive(Clone, Debug)]
pub struct MarketToLoad {
    pub name: String,
    pub address: [u8; 32],
}

/// What is read from a market account: the public keys of the coin and price
/// currency mints, and the lot sizes.
#[derive(Clone, Copy, Debug)]
pub struct MarketParameters {
    pub coin_mint: [u8; 32],
    pub pc_mint: [u8; 32],
    pub coin_lot_size: u64,
    pub pc_lot_size: u64,
}

/// The fields of a market state that are read, as the state holds them.
#[derive(Clone, Copy, Debug)]
pub struct MarketStateFields {
    pub account_flags: u64,
    pub coin_mint: [u64; 4],
    pub pc_mint: [u64; 4],
    pub coin_lot_size: u64,
    pub pc_lot_size: u64,
}

#[verifier::external_type_specification]
#[verifier::external_body]
pub struct ExDexError(DexError);

#[verifier::external_type_specification]
#[verifier::external_body]
pub struct ExProgramError(ProgramError);

/// The bytes that start every market account.
pub open spec fn head_padding() -> Seq<u8> {
    seq![115u8, 101, 114, 117, 109]
}

/// The bytes that end every market account.
pub open spec fn tail_padding() -> Seq<u8> {
    seq![112u8, 97, 100, 100, 105, 110, 103]
}

/// The flag of a market whose accounts are permissioned.
pub const PERMISSIONED_FLAG: u64 = 0x200;

/// All flags that a market account may hold.
pub const KNOWN_FLAGS: u64 = 0x7FF;

/// The size in bytes of a market state.
pub const MARKET_STATE_LEN: usize = 376;

/// The size in bytes of a permissioned market state.
pub const MARKET_STATE_V2_LEN: usize = 1464;

/// The little-endian `u64` in the eight bytes of `b` from `at` on.
pub open spec fn le_u64(b: Seq<u8>, at: int) -> u64 {
    (b[at] as u64) | ((b[at + 1] as u64) << 8u64) | ((b[at + 2] as u64) << 16u64) | ((b[at
        + 3] as u64) << 24u64) | ((b[at + 4] as u64) << 32u64) | ((b[at + 5] as u64) << 40u64)
        | ((b[at + 6] as u64) << 48u64) | ((b[at + 7] as u64) << 56u64)
}

/// The `index`-th little-endian word of `b`.
pub open spec fn word_at(b: Seq<u8>, index: int) -> u64 {
    le_u64(b, 8 * index)
}

/// The four words of `b` from word `index` on.
pub open spec fn words4_at(b: Seq<u8>, index: int) -> Seq<u64> {
    seq![word_at(b, index), word_at(b, index + 1), word_at(b, index + 2), word_at(b, index + 3)]
}

/// The fields of the market state laid out in `b`.
pub open spec fn market_state_fields_at(b: Seq<u8>, f: MarketStateFields) -> bool {
    &&& f.account_flags == word_at(b, 0)
    &&& f.coin_mint@ == words4_at(b, 6)
    &&& f.pc_mint@ == words4_at(b, 10)
    &&& f.coin_lot_size == word_at(b, 43)
    &&& f.pc_lot_size == word_at(b, 44)
}

/// The four bytes from `at` on are the tag of an absent or present optional key.
pub open spec fn coption_tag_ok(b: Seq<u8>, at: int) -> bool {
    &&& b[at] == 0 || b[at] == 1
    &&& b[at + 1] == 0 && b[at + 2] == 0 && b[at + 3] == 0
}

/// The bytes of a mint account hold a valid mint.
pub open spec fn mint_ok(b: Seq<u8>) -> bool {
    &&& coption_tag_ok(b, 0)
    &&& b[45] == 0 || b[45] == 1
    &&& coption_tag_ok(b, 46)
}

/// The public key that `solana_program::pubkey::Pubkey::from_str` reads from the
/// text, `None` when it rejects it.
pub uninterp spec fn parsed_pubkey(text: Seq<char>) -> Option<Seq<u8>>;

/// `solana_program::pubkey::Pubkey::from_str`: the base58 public key in the
/// text, as its 32 bytes. Its source rejects a text of more than 44 bytes (so
/// of more than 44 characters) before decoding; what it decodes otherwise is
/// named by `parsed_pubkey`.
#[verifier::external_body]
fn pubkey_from_str(text: &str) -> (r: Option<[u8; 32]>)
    ensures
        r matches Some(key) ==> parsed_pubkey(text@) == Some(key@),
        r is None <==> parsed_pubkey(text@) is None,
        text@.len() > 44 ==> r is None,
{
    match Pubkey::from_str(text) {
        Ok(key) => Some(key.to_bytes()),
        Err(_) => None,
    }
}

/// `serum_dex::state::Market::account_flags`: the little-endian word after the
/// head padding, as flags. Its source fails when the account is shorter than
/// the padding and the word, and when the word holds a bit that names no flag.
#[verifier::external_body]
fn market_account_flags(account_data: &[u8]) -> (r: Result<u64, DexError>)
    ensures
        (r is Ok) <==> (account_data@.len() >= 13 && le_u64(account_data@, 5) & !KNOWN_FLAGS == 0),
        r matches Ok(flags) ==> flags == le_u64(account_data@, 5),
{
    match Market::account_flags(account_data) {
        Ok(flags) => Ok(flags.bits()),
        Err(e) => Err(e),
    }
}

/// `safe_transmute::transmute_one_pedantic::<serum_dex::state::MarketState>`:
/// the market state laid out in the bytes, which must be exactly one state long.
/// The state is read in the machine's byte order, which is little-endian: the
/// crate implements the transmute for the state on little-endian targets only.
#[verifier::external_body]
fn market_state_from_bytes(bytes: &[u8]) -> (r: Option<MarketStateFields>)
    ensures
        r is Some <==> bytes@.len() == MARKET_STATE_LEN,
        r matches Some(f) ==> market_state_fields_at(bytes@, f),
{
    match transmute_one_pedantic::<MarketState>(bytes) {
        Ok(state) => Some(
            MarketStateFields {
                account_flags: state.account_flags,
                coin_mint: state.coin_mint,
                pc_mint: state.pc_mint,
                coin_lot_size: state.coin_lot_size,
                pc_lot_size: state.pc_lot_size,
            },
        ),
        Err(_) => None,
    }
}

/// `safe_transmute::transmute_one_pedantic::<serum_dex::state::MarketStateV2>`:
/// the permissioned market state laid out in the bytes, which must be exactly
/// one such state long; its inner market state comes first. Read in the
/// machine's byte order, little-endian as above.
#[verifier::external_body]
fn market_state_v2_from_bytes(bytes: &[u8]) -> (r: Option<MarketStateFields>)
    ensures
        r is Some <==> bytes@.len() == MARKET_STATE_V2_LEN,
        r matches Some(f) ==> market_state_fields_at(bytes@, f),
{
    match transmute_one_pedantic::<MarketStateV2>(bytes) {
        Ok(state) => Some(
            MarketStateFields {
                account_flags: state.inner.account_flags,
                coin_mint: state.inner.coin_mint,
                pc_mint: state.inner.pc_mint,
                coin_lot_size: state.inner.coin_lot_size,
                pc_lot_size: state.inner.pc_lot_size,
            },
        ),
        Err(_) => None,
    }
}

/// `spl_token::state::Mint::unpack_from_slice`: the decimals of the mint in the
/// account bytes. Its source reads the first 82 bytes (and panics on fewer),
/// fails when either optional-key tag or the initialized byte is not 0 or 1,
/// and takes the decimals from byte 44.
#[verifier::external_body]
pub(crate) fn mint_decimals(data: &[u8]) -> (r: Result<u8, ProgramError>)
    requires
        data@.len() >= 82,
    ensures
        r is Ok <==> mint_ok(data@),
        r matches Ok(decimals) ==> decimals == data@[44],
{
    match Mint::unpack_from_slice(data) {
        Ok(mint) => Ok(mint.decimals),
        Err(e) => Err(e),
    }
}

/// The bytes of the whole words between the head and the tail padding.
pub open spec fn account_words(data: Seq<u8>) -> Seq<u8> {
    data.subrange(5, 5 + (data.len() - 12) / 8 * 8)
}

/// What stripping the padding of a market account gives: the bytes of the
/// whole words between the paddings, or why the account holds no padding.
pub open spec fn padding_result(data: Seq<u8>) -> Result<Seq<u8>, SerumError> {
    if data.len() < 12 {
        Err(SerumError::AccountTooSmall)
    } else if data.subrange(0, 5) != head_padding() {
        Err(SerumError::HeadPaddingMismatch)
    } else if data.subrange(data.len() - 7, data.len() as int) != tail_padding() {
        Err(SerumError::TailPaddingMismatch)
    } else {
        Ok(account_words(data))
    }
}

/// The flags of an initialized market state, permissioned or not, pass the
/// market's own check: exactly initialized and market, or for a permissioned
/// market also permissioned and possibly crank-authority-required.
pub open spec fn market_flags_ok(flags: u64, permissioned: bool) -> bool {
    if permissioned {
        flags == 0x203 || flags == 0x603
    } else {
        flags == 0x3
    }
}

/// What is read from a market account: the coin mint key, the price currency
/// mint key, the coin lot size and the price currency lot size; or why it cannot
/// be read.
pub open spec fn market_parameters_result(data: Seq<u8>) -> Result<
    (Seq<u8>, Seq<u8>, u64, u64),
    SerumError,
> {
    match padding_result(data) {
        Err(e) => Err(e),
        Ok(words) => {
            if !(data.len() >= 13 && le_u64(data, 5) & !KNOWN_FLAGS == 0) {
                Err(SerumError::InvalidMarketFlags)
            } else {
                let permissioned = le_u64(data, 5) & PERMISSIONED_FLAG != 0;
                let expected_len = if permissioned {
                    MARKET_STATE_V2_LEN
                } else {
                    MARKET_STATE_LEN
                };
                if words.len() != expected_len {
                    Err(SerumError::InvalidMarketStateSize)
                } else if !market_flags_ok(word_at(words, 0), permissioned) {
                    Err(SerumError::InvalidMarketState)
                } else {
                    Ok(
                        (
                            data.subrange(53, 85),
                            data.subrange(85, 117),
                            word_at(words, 43),
                            word_at(words, 44),
                        ),
                    )
                }
            }
        },
    }
}

/// A market account that holds its padding, flags that are all known, and a
/// state of the size that its permissioned flag asks for, is read exactly when
/// the flags are those of an initialized market: Initialized and Market
/// (`0x3`) for a plain market; for a permissioned one Initialized, Market and
/// Permissioned (`0x203`), or those and CrankAuthorityRequired (`0x603`). The
/// state's own flags are the account's flags word, after the head padding.
pub proof fn lemma_market_flags_decide(data: Seq<u8>)
    requires
        padding_result(data) is Ok,
        le_u64(data, 5) & !KNOWN_FLAGS == 0,
        account_words(data).len() == (if le_u64(data, 5) & 0x200 != 0 {
            1464int
        } else {
            376int
        }),
    ensures
        (market_parameters_result(data) is Ok) <==> (if le_u64(data, 5) & 0x200 != 0 {
            le_u64(data, 5) == 0x203 || le_u64(data, 5) == 0x603
        } else {
            le_u64(data, 5) == 0x3
        }),
{
    let words = account_words(data);
    assert(data.len() >= 13);
    assert(words[0] == data[5] && words[1] == data[6] && words[2] == data[7] && words[3]
        == data[8] && words[4] == data[9] && words[5] == data[10] && words[6] == data[11]
        && words[7] == data[12]);
    assert(word_at(words, 0) == le_u64(data, 5));
}

/// A market of the published list as plain values: its `deprecated`, `name`
/// and `address` fields, as `MarketListing` holds them.
pub open spec fn listing_view(listing: MarketListing) -> ListingFields {
    (
        listing.deprecated,
        match listing.name {
            Ok(name) => Ok(name@),
            Err(e) => Err(e),
        },
        match listing.address {
            Ok(address) => Ok(address@),
            Err(e) => Err(e),
        },
    )
}

/// The fields of a market of the published list that are read: `deprecated`,
/// `name` and `address`.
pub type ListingFields = (Option<bool>, Result<Seq<char>, FieldError>, Result<Seq<char>, FieldError>);

/// What a market of the published list gives: `None` for a deprecated market,
/// else its name and the key of its account; or why the entry is unusable.
pub open spec fn market_to_load_result(
    listing: ListingFields,
) -> Result<Option<(Seq<char>, Seq<u8>)>, SerumError> {
    match listing.0 {
        None => Err(SerumError::UnableToGetDeprecatedState),
        Some(true) => Ok(None),
        Some(false) => match listing.1 {
            Err(e) => Err(SerumError::UnableToGetName(e)),
            Ok(name) => match listing.2 {
                Err(e) => Err(SerumError::UnableToGetAddress(e)),
                Ok(address) => match parsed_pubkey(address) {
                    None => Err(SerumError::InvalidPubkey),
                    Some(key) => Ok(Some((name, key))),
                },
            },
        },
    }
}

/// The markets to load from the first `n` markets of the list, in order, with
/// the deprecated ones skipped; and the error of the first unusable market,
/// after which no market is looked at.
pub open spec fn markets_to_load_result(
    listings: Seq<ListingFields>,
    n: int,
) -> (Seq<(Seq<char>, Seq<u8>)>, Option<SerumError>)
    decreases n,
{
    if n <= 0 {
        (Seq::empty(), None)
    } else {
        let before = markets_to_load_result(listings, n - 1);
        if before.1 is Some {
            before
        } else {
            match market_to_load_result(listings[n - 1]) {
                Err(e) => (before.0, Some(e)),
                Ok(None) => before,
                Ok(Some(m)) => (before.0.push(m), None),
            }
        }
    }
}

/// The markets of the list that the exchange publishes, read from the text of
/// the response: `None` when the text is not JSON, `Some(None)` when it is not
/// an array, else each market's `deprecated`, `name` and `address` fields, as
/// `serde_json` reads them.
pub uninterp spec fn market_list_of(text: Seq<char>) -> Option<Option<Seq<ListingFields>>>;

/// Byte `j` of the little-endian word read from `b` at `at` is `b[at + j]`.
proof fn lemma_le_u64_byte(b: Seq<u8>, at: int, j: int)
    requires
        0 <= at,
        at + 8 <= b.len(),
        0 <= j < 8,
    ensures
        ((le_u64(b, at) >> (8 * j) as u64) as u8) == b[at + j],
{
    let b0 = b[at];
    let b1 = b[at + 1];
    let b2 = b[at + 2];
    let b3 = b[at + 3];
    let b4 = b[at + 4];
    let b5 = b[at + 5];
    let b6 = b[at + 6];
    let b7 = b[at + 7];
    let w = le_u64(b, at);
    assert(w == (b0 as u64) | ((b1 as u64) << 8u64) | ((b2 as u64) << 16u64) | ((b3 as u64)
        << 24u64) | ((b4 as u64) << 32u64) | ((b5 as u64) << 40u64) | ((b6 as u64) << 48u64) | ((
    b7 as u64) << 56u64));
    assert((w >> 0u64) as u8 == b0 && (w >> 8u64) as u8 == b1 && (w >> 16u64) as u8 == b2 && (w
        >> 24u64) as u8 == b3 && (w >> 32u64) as u8 == b4 && (w >> 40u64) as u8 == b5 && (w
        >> 48u64) as u8 == b6 && (w >> 56u64) as u8 == b7) by (bit_vector)
        requires
            w == (b0 as u64) | ((b1 as u64) << 8u64) | ((b2 as u64) << 16u64) | ((b3 as u64)
                << 24u64) | ((b4 as u64) << 32u64) | ((b5 as u64) << 40u64) | ((b6 as u64)
                << 48u64) | ((b7 as u64) << 56u64),
    ;
}

/// Strips the head and tail padding from a market account: the bytes of the
/// whole words between them.
pub fn remove_dex_account_padding<'a>(data: &'a [u8]) -> (r: Result<&'a [u8], SerumError>)
    ensures
        r matches Ok(words) ==> padding_result(data@) == Ok::<Seq<u8>, SerumError>(words@),
        r matches Err(e) ==> padding_result(data@) == Err::<Seq<u8>, SerumError>(e),
{
    let len = data.len();
    if len < 12 {
        return Err(SerumError::AccountTooSmall);
    }
    let head: [u8; 5] = [115, 101, 114, 117, 109];
    let tail: [u8; 7] = [112, 97, 100, 100, 105, 110, 103];
    let mut i: usize = 0;
    while i < 5
        invariant
            len == data@.len(),
            len >= 12,
            i <= 5,
            head@ == head_padding(),
            forall|k: int| 0 <= k < i ==> data@[k] == head_padding()[k],
        decreases 5 - i,
    {
        if data[i] != head[i] {
            assert(data@.subrange(0, 5)[i as int] != head_padding()[i as int]);
            return Err(SerumError::HeadPaddingMismatch);
        }
        i = i + 1;
    }
    assert(data@.subrange(0, 5) =~= head_padding());
    let mut j: usize = 0;
    while j < 7
        invariant
            len == data@.len(),
            len >= 12,
            j <= 7,
            tail@ == tail_padding(),
            data@.subrange(0, 5) == head_padding(),
            forall|k: int| 0 <= k < j ==> data@[len - 7 + k] == tail_padding()[k],
        decreases 7 - j,
    {
        if data[len - 7 + j] != tail[j] {
            assert(data@.subrange(len - 7, len as int)[j as int] != tail_padding()[j as int]);
            return Err(SerumError::TailPaddingMismatch);
        }
        j = j + 1;
    }
    assert(data@.subrange(len - 7, len as int) =~= tail_padding());
    let end = 5 + (len - 12) / 8 * 8;
    Ok(vstd::slice::slice_subrange(data, 5, end))
}

/// The 32 bytes of a public key held as four little-endian words.
pub fn convert64_to_pubkey(words: [u64; 4]) -> (r: [u8; 32])
    ensures
        forall|i: int|
            0 <= i < 32 ==> r@[i] == ((words@[i / 8] >> (8 * (i % 8)) as u64) as u8),
{
    let mut key: [u8; 32] = [0u8; 32];
    let mut i: usize = 0;
    while i < 32
        invariant
            i <= 32,
            forall|k: int|
                0 <= k < i ==> key@[k] == ((words@[k / 8] >> (8 * (k % 8)) as u64) as u8),
        decreases 32 - i,
    {
        let word = words[i / 8];
        let shift: u64 = (8 * (i % 8)) as u64;
        key[i] = (word >> shift) as u8;
        i = i + 1;
    }
    key
}

/// The checks of a market state's flags that the market itself makes when it
/// loads its state.
fn check_market_flags(flags: u64, permissioned: bool) -> (r: bool)
    ensures
        r == market_flags_ok(flags, permissioned),
{
    if permissioned {
        flags == 0x203 || flags == 0x603
    } else {
        flags == 0x3
    }
}

/// The public key of a market's mint, read from the bytes of the whole words of
/// its account.
proof fn lemma_key_from_words(data: Seq<u8>, words: Seq<u8>, mint: Seq<u64>, key: Seq<u8>, first_word: int)
    requires
        data.len() >= 12,
        words == account_words(data),
        0 <= first_word,
        8 * (first_word + 4) <= words.len(),
        mint == words4_at(words, first_word),
        key.len() == 32,
        forall|i: int| 0 <= i < 32 ==> key[i] == ((mint[i / 8] >> (8 * (i % 8)) as u64) as u8),
    ensures
        key == data.subrange(5 + 8 * first_word, 5 + 8 * first_word + 32),
{
    assert forall|i: int| 0 <= i < 32 implies key[i] == data[5 + 8 * first_word + i] by {
        let k = i / 8;
        let j = i % 8;
        lemma_le_u64_byte(words, 8 * (first_word + k), j);
        assert(mint[k] == le_u64(words, 8 * (first_word + k)));
        assert(words[8 * (first_word + k) + j] == data[5 + 8 * first_word + i]);
    }
    assert(key =~= data.subrange(5 + 8 * first_word, 5 + 8 * first_word + 32));
}

/// Reads the mint keys and lot sizes of a market from its account data.
pub fn load_market_parameters(account_data: &[u8]) -> (r: Result<MarketParameters, SerumError>)
    ensures
        r matches Ok(p) ==> market_parameters_result(account_data@) == Ok::<
            (Seq<u8>, Seq<u8>, u64, u64),
            SerumError,
        >((p.coin_mint@, p.pc_mint@, p.coin_lot_size, p.pc_lot_size)),
        r matches Err(e) ==> market_parameters_result(account_data@) == Err::<
            (Seq<u8>, Seq<u8>, u64, u64),
            SerumError,
        >(e),
        padding_result(account_data@) is Ok && le_u64(account_data@, 5) & !KNOWN_FLAGS == 0
            && account_words(account_data@).len() == (if le_u64(account_data@, 5) & 0x200 != 0 {
            1464int
        } else {
            376int
        }) ==> ((r is Ok) <==> (if le_u64(account_data@, 5) & 0x200 != 0 {
            le_u64(account_data@, 5) == 0x203 || le_u64(account_data@, 5) == 0x603
        } else {
            le_u64(account_data@, 5) == 0x3
        })),
{
    proof {
        if padding_result(account_data@) is Ok && le_u64(account_data@, 5) & !KNOWN_FLAGS == 0
            && account_words(account_data@).len() == (if le_u64(account_data@, 5) & 0x200 != 0 {
            1464int
        } else {
            376int
        }) {
            lemma_market_flags_decide(account_data@);
        }
    }
    let words = match remove_dex_account_padding(account_data) {
        Ok(words) => words,
        Err(e) => {
            return Err(e);
        },
    };
    let flags = match market_account_flags(account_data) {
        Ok(flags) => flags,
        Err(_) => {
            return Err(SerumError::InvalidMarketFlags);
        },
    };
    let permissioned = flags & PERMISSIONED_FLAG != 0;
    let state = if permissioned {
        match market_state_v2_from_bytes(words) {
            Some(state) => state,
            None => {
                return Err(SerumError::InvalidMarketStateSize);
            },
        }
    } else {
        match market_state_from_bytes(words) {
            Some(state) => state,
            None => {
                return Err(SerumError::InvalidMarketStateSize);
            },
        }
    };
    if !check_market_flags(state.account_flags, permissioned) {
        return Err(SerumError::InvalidMarketState);
    }
    let coin_mint = convert64_to_pubkey(state.coin_mint);
    let pc_mint = convert64_to_pubkey(state.pc_mint);
    proof {
        lemma_key_from_words(account_data@, words@, state.coin_mint@, coin_mint@, 6);
        lemma_key_from_words(account_data@, words@, state.pc_mint@, pc_mint@, 10);
    }
    Ok(
        MarketParameters {
            coin_mint,
            pc_mint,
            coin_lot_size: state.coin_lot_size,
            pc_lot_size: state.pc_lot_size,
        },
    )
}

/// Decides what to do with a market of the published list: nothing for a
/// deprecated market, else load it from its name and the key of its account.
pub fn market_to_load(listing: &MarketListing) -> (r: Result<Option<MarketToLoad>, SerumError>)
    ensures
        r matches Ok(Some(m)) ==> market_to_load_result(listing_view(*listing)) == Ok::<
            Option<(Seq<char>, Seq<u8>)>,
            SerumError,
        >(Some((m.name@, m.address@))),
        r matches Ok(None) ==> market_to_load_result(listing_view(*listing)) == Ok::<
            Option<(Seq<char>, Seq<u8>)>,
            SerumError,
        >(None),
        r matches Err(e) ==> market_to_load_result(listing_view(*listing)) == Err::<
            Option<(Seq<char>, Seq<u8>)>,
            SerumError,
        >(e),
        listing.deprecated == Some(true) ==> r matches Ok(None),
        listing.deprecated is None ==> r == Err::<Option<MarketToLoad>, SerumError>(
            SerumError::UnableToGetDeprecatedState,
        ),
        listing.deprecated == Some(false) ==> match listing.name {
            Err(e) => r == Err::<Option<MarketToLoad>, SerumError>(SerumError::UnableToGetName(e)),
            Ok(name) => match listing.address {
                Err(e) => r == Err::<Option<MarketToLoad>, SerumError>(
                    SerumError::UnableToGetAddress(e),
                ),
                Ok(address) => match parsed_pubkey(address@) {
                    None => r == Err::<Option<MarketToLoad>, SerumError>(SerumError::InvalidPubkey),
                    Some(key) => r matches Ok(Some(m)) && m.name@ == name@ && m.address@ == key,
                },
            },
        },
        r matches Ok(Some(m)) ==> {
            &&& listing.deprecated == Some(false)
            &&& listing.name matches Ok(name) && name@ == m.name@
            &&& listing.address matches Ok(address) && parsed_pubkey(address@) == Some(m.address@)
        },
{
    let is_deprecated = match listing.deprecated {
        Some(d) => d,
        None => {
            return Err(SerumError::UnableToGetDeprecatedState);
        },
    };
    if is_deprecated {
        return Ok(None);
    }
    let name = match &listing.name {
        Ok(name) => name.clone(),
        Err(e) => {
            return Err(SerumError::UnableToGetName(*e));
        },
    };
    let address = match &listing.address {
        Ok(address) => address,
        Err(e) => {
            return Err(SerumError::UnableToGetAddress(*e));
        },
    };
    match pubkey_from_str(address.as_str()) {
        Some(key) => Ok(Some(MarketToLoad { name, address: key })),
        None => Err(SerumError::InvalidPubkey),
    }
}


/// `serde_json::from_str::<serde_json::Value>` on the response, then each element
/// of the array read as a market listing: `deprecated` by `as_bool`, `name` and
/// `address` by `get`, then `as_str`, each failure kept apart. What is read is
/// named by `market_list_of`.
#[verifier::external_body]
fn parse_market_list(content: &str) -> (r: Result<Vec<MarketListing>, SerumError>)
    ensures
        (r is Ok) <==> (market_list_of(content@) matches Some(Some(_))),
        r matches Err(e) ==> (market_list_of(content@) is None && e
            == SerumError::UnableToDeserializeMarkets) || (market_list_of(content@) == Some(
            None::<Seq<ListingFields>>,
        ) && e == SerumError::MarketsNotArray),
        r matches Ok(v) ==> market_list_of(content@) == Some(
            Some(v@.map_values(|l: MarketListing| listing_view(l))),
        ),
{
    let value: Value = match serde_json::from_str(content) {
        Ok(value) => value,
        Err(_) => return Err(SerumError::UnableToDeserializeMarkets),
    };
    match value.as_array() {
        None => Err(SerumError::MarketsNotArray),
        Some(markets) => Ok(markets.iter().map(|m| MarketListing {
            deprecated: m["deprecated"].as_bool(),
            name: m.get("name").ok_or(FieldError::Missing)
                .and_then(|v| v.as_str().map(str::to_string).ok_or(FieldError::NotString)),
            address: m.get("address").ok_or(FieldError::Missing)
                .and_then(|v| v.as_str().map(str::to_string).ok_or(FieldError::NotString)),
        }).collect()),
    }
}

/// The markets to load from a published list, in order, and the error of its
/// first unusable market, if any.
#[derive(Clone, Debug)]
pub struct MarketsToLoad {
    pub markets: Vec<MarketToLoad>,
    pub error: Option<SerumError>,
}

/// Reads the list of markets from the response and decides which to load: the
/// markets in order, the deprecated ones skipped, up to the first unusable
/// market, whose error comes with them; or why the response holds no list.
pub fn markets_to_load(content: &str) -> (r: Result<MarketsToLoad, SerumError>)
    ensures
        (r is Ok) <==> (market_list_of(content@) matches Some(Some(_))),
        r matches Err(e) ==> e == (if market_list_of(content@) is None {
            SerumError::UnableToDeserializeMarkets
        } else {
            SerumError::MarketsNotArray
        }),
        r matches Ok(m) ==> market_list_of(content@) matches Some(Some(list)) && (
        m.markets@.map_values(|l: MarketToLoad| (l.name@, l.address@)),
        m.error,
        ) == markets_to_load_result(list, list.len() as int),
{
    let listings = match parse_market_list(content) {
        Ok(listings) => listings,
        Err(e) => {
            return Err(e);
        },
    };
    let ghost list = listings@.map_values(|l: MarketListing| listing_view(l));
    let n = listings.len();
    let mut markets: Vec<MarketToLoad> = Vec::new();
    let mut i: usize = 0;
    while i < n
        invariant
            n == listings@.len(),
            list == listings@.map_values(|l: MarketListing| listing_view(l)),
            market_list_of(content@) == Some(Some(list)),
            i <= n,
            markets_to_load_result(list, i as int).1 is None,
            markets@.map_values(|l: MarketToLoad| (l.name@, l.address@)) == markets_to_load_result(
                list,
                i as int,
            ).0,
        decreases n - i,
    {
        let ghost before = markets@.map_values(|l: MarketToLoad| (l.name@, l.address@));
        assert(list[i as int] == listing_view(listings@[i as int]));
        match market_to_load(&listings[i]) {
            Ok(Some(m)) => {
                let ghost entry = (m.name@, m.address@);
                markets.push(m);
                assert(markets@.map_values(|l: MarketToLoad| (l.name@, l.address@)) =~= before.push(
                    entry,
                ));
            },
            Ok(None) => {},
            Err(e) => {
                proof {
                    assert(markets_to_load_result(list, i as int + 1) == (
                        markets_to_load_result(list, i as int).0,
                        Some(e),
                    ));
                    lemma_markets_stop_at_error(list, i as int + 1);
                }
                return Ok(MarketsToLoad { markets, error: Some(e) });
            },
        }
        i = i + 1;
    }
    assert(markets@.map_values(|l: MarketToLoad| (l.name@, l.address@)) == markets_to_load_result(
        list,
        n as int,
    ).0);
    Ok(MarketsToLoad { markets, error: None })
}

/// A deprecated market adds nothing to the markets to load, and changes no
/// error: the list with it decides as the list without it.
pub proof fn lemma_deprecated_market_skipped(listings: Seq<ListingFields>, n: int)
    requires
        1 <= n <= listings.len(),
        listings[n - 1].0 == Some(true),
    ensures
        markets_to_load_result(listings, n) == markets_to_load_result(listings, n - 1),
{
}

/// Among the first `n` markets of the list is one that is not deprecated, with
/// the given name and an address that the public key parser reads as the given
/// key.
pub open spec fn listed_live(listings: Seq<ListingFields>, n: int, market: (Seq<char>, Seq<u8>)) -> bool {
    exists|i: int|
        0 <= i < n && (#[trigger] listings[i]).0 == Some(false) && listings[i].1 == Ok::<
            Seq<char>,
            FieldError,
        >(market.0) && (listings[i].2 matches Ok(address) && parsed_pubkey(address) == Some(
            market.1,
        ))
}

/// Every market to load comes from a listed market that is not deprecated: one
/// whose `deprecated` field is `false`, whose name is the market's name and
/// whose address the public key parser reads as the market's key.
pub proof fn lemma_loaded_markets_are_live_listings(listings: Seq<ListingFields>, n: int)
    requires
        0 <= n <= listings.len(),
    ensures
        forall|k: int|
            0 <= k < markets_to_load_result(listings, n).0.len() ==> listed_live(
                listings,
                n,
                #[trigger] markets_to_load_result(listings, n).0[k],
            ),
    decreases n,
{
    if n > 0 {
        lemma_loaded_markets_are_live_listings(listings, n - 1);
        let before = markets_to_load_result(listings, n - 1).0;
        let loaded = markets_to_load_result(listings, n).0;
        assert forall|k: int| 0 <= k < loaded.len() implies listed_live(
            listings,
            n,
            #[trigger] loaded[k],
        ) by {
            if k < before.len() {
                assert(loaded[k] == before[k]);
                assert(listed_live(listings, n - 1, before[k]));
                let i = choose|i: int|
                    0 <= i < n - 1 && (#[trigger] listings[i]).0 == Some(false) && listings[i].1
                        == Ok::<Seq<char>, FieldError>(before[k].0) && (listings[i].2 matches Ok(
                        address,
                    ) && parsed_pubkey(address) == Some(before[k].1));
                assert(listings[i].0 == Some(false));
            } else {
                assert(listings[n - 1].0 == Some(false));
            }
        }
    }
}

/// The first unusable market of the list ends it: its error is the error of
/// every longer prefix of the list, and the markets to load are those before
/// it; no market after it is looked at.
pub proof fn lemma_first_unusable_market_ends_list(listings: Seq<ListingFields>, i: int, n: int)
    requires
        0 <= i < n <= listings.len(),
        markets_to_load_result(listings, i).1 is None,
        market_to_load_result(listings[i]) is Err,
    ensures
        markets_to_load_result(listings, n) == (
            markets_to_load_result(listings, i).0,
            Some(market_to_load_result(listings[i])->Err_0),
        ),
    decreases n - i,
{
    if n > i + 1 {
        lemma_first_unusable_market_ends_list(listings, i, n - 1);
    }
}

/// Once a market of the list is unusable, the markets after it change nothing.
proof fn lemma_markets_stop_at_error(
    listings: Seq<ListingFields>,
    n: int,
)
    requires
        0 <= n <= listings.len(),
        markets_to_load_result(listings, n).1 is Some,
    ensures
        markets_to_load_result(listings, listings.len() as int) == markets_to_load_result(
            listings,
            n,
        ),
    decreases listings.len() - n,
{
    if n < listings.len() {
        assert(markets_to_load_result(listings, n + 1) == markets_to_load_result(listings, n));
        lemma_markets_stop_at_error(listings, n + 1);
    }
}

} // verus!
