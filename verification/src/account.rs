//! Accounts as the account database stores them, in the three versions of their schema.
use crate::text::{push_decimal, push_signed_decimal};
use std::collections::BTreeSet;
use vstd::prelude::*;

verus! {

use crate::text::{
    decimal,
    lemma_decimal_digits,
    lemma_decimal_injective,
    signed_decimal,
};
use vstd::std_specs::convert::FromSpec;

/// How an account is kept up to date.
#[derive(Clone, Copy, Debug, PartialEq, Eq, Structural)]
pub enum AccountType {
    IMAP,
    NoSync,
}

impl Default for AccountType {
    fn default() -> (r: Self)
        ensures
            r == AccountType::IMAP,
    {
        AccountType::IMAP
    }
}

/// How the connection to the IMAP server is protected.
#[derive(Clone, Copy, Debug, PartialEq, Eq, Structural)]
pub enum Encryption {
    Ssl,
    StartTls,
    Unencrypted,
}

impl Default for Encryption {
    fn default() -> (r: Self)
        ensures
            r == Encryption::Ssl,
    {
        Encryption::Ssl
    }
}

/// How an account logs in.
#[derive(Clone, Copy, Debug, PartialEq, Eq, Structural)]
pub enum AuthType {
    Password,
    OAuth2,
}

impl Default for AuthType {
    fn default() -> (r: Self)
        ensures
            r == AuthType::Password,
    {
        AuthType::Password
    }
}

/// The login of an account.
#[derive(Clone, Debug, PartialEq, Eq)]
pub struct AuthConfig {
    pub auth_type: AuthType,
    pub password: Option<String>,
}

impl Default for AuthConfig {
    fn default() -> (r: Self)
        ensures
            r.auth_type == AuthType::Password,
            r.password is None,
    {
        AuthConfig {
            auth_type: AuthType::default(),
            password: None,
        }
    }
}

/// The IMAP server of an account.
#[derive(Clone, Debug, PartialEq, Eq)]
pub struct ImapConfig {
    pub host: String,
    pub port: u16,
    pub encryption: Encryption,
    pub auth: AuthConfig,
    pub use_proxy: Option<u64>,
}

impl Default for ImapConfig {
    fn default() -> (r: Self)
        ensures
            r.host@ == Seq::<char>::empty(),
            r.port == 0,
            r.encryption == Encryption::Ssl,
            r.auth.auth_type == AuthType::Password,
            r.auth.password is None,
            r.use_proxy is None,
    {
        ImapConfig {
            host: String::new(),
            port: 0,
            encryption: Encryption::default(),
            auth: AuthConfig::default(),
            use_proxy: None,
        }
    }
}

/// The unit of a span of time.
#[derive(Clone, Copy, Debug, PartialEq, Eq, Structural)]
pub enum Unit {
    Days,
    Months,
    Years,
}

impl Default for Unit {
    fn default() -> (r: Self)
        ensures
            r == Unit::Days,
    {
        Unit::Days
    }
}

/// A date a number of units back.
#[derive(Clone, Debug, PartialEq, Eq)]
pub struct RelativeDate {
    pub unit: Unit,
    pub value: u32,
}

impl Default for RelativeDate {
    fn default() -> (r: Self)
        ensures
            r.unit == Unit::Days,
            r.value == 0,
    {
        RelativeDate {
            unit: Unit::default(),
            value: 0,
        }
    }
}

/// The date from which messages are fetched, fixed or relative.
#[derive(Clone, Debug, PartialEq, Eq)]
pub struct DateSince {
    pub fixed: Option<String>,
    pub relative: Option<RelativeDate>,
}

impl Default for DateSince {
    fn default() -> (r: Self)
        ensures
            r.fixed is None,
            r.relative is None,
    {
        DateSince {
            fixed: None,
            relative: None,
        }
    }
}

/// An account, first version of the schema.
#[derive(Clone, Debug, PartialEq, Eq)]
pub struct AccountV1 {
    pub id: u64,
    pub imap: Option<ImapConfig>,
    pub enabled: bool,
    pub email: String,
    pub name: Option<String>,
    pub capabilities: Option<Vec<String>>,
    pub date_since: Option<DateSince>,
    pub folder_limit: Option<u32>,
    pub sync_folders: Option<Vec<String>>,
    pub account_type: AccountType,
    pub sync_interval_min: Option<i64>,
    pub known_folders: Option<BTreeSet<String>>,
    pub created_at: i64,
    pub updated_at: i64,
    pub use_proxy: Option<u64>,
}

impl Default for AccountV1 {
    fn default() -> (r: Self)
        ensures
            r.id == 0,
            r.imap is None,
            !r.enabled,
            r.email@ == Seq::<char>::empty(),
            r.name is None,
            r.capabilities is None,
            r.date_since is None,
            r.folder_limit is None,
            r.sync_folders is None,
            r.account_type == AccountType::IMAP,
            r.sync_interval_min is None,
            r.known_folders is None,
            r.created_at == 0,
            r.updated_at == 0,
            r.use_proxy is None,
    {
        AccountV1 {
            id: 0,
            imap: None,
            enabled: false,
            email: String::new(),
            name: None,
            capabilities: None,
            date_since: None,
            folder_limit: None,
            sync_folders: None,
            account_type: AccountType::default(),
            sync_interval_min: None,
            known_folders: None,
            created_at: 0,
            updated_at: 0,
            use_proxy: None,
        }
    }
}

/// An account, second version: adds `use_dangerous` and `pgp_key`.
#[derive(Clone, Debug, PartialEq, Eq)]
pub struct AccountV2 {
    pub id: u64,
    pub imap: Option<ImapConfig>,
    pub enabled: bool,
    pub email: String,
    pub name: Option<String>,
    pub capabilities: Option<Vec<String>>,
    pub date_since: Option<DateSince>,
    pub folder_limit: Option<u32>,
    pub sync_folders: Option<Vec<String>>,
    pub account_type: AccountType,
    pub sync_interval_min: Option<i64>,
    pub known_folders: Option<BTreeSet<String>>,
    pub created_at: i64,
    pub updated_at: i64,
    pub use_proxy: Option<u64>,
    pub use_dangerous: bool,
    pub pgp_key: Option<String>,
}

impl Default for AccountV2 {
    fn default() -> (r: Self)
        ensures
            r.id == 0,
            r.imap is None,
            !r.enabled,
            r.email@ == Seq::<char>::empty(),
            r.name is None,
            r.capabilities is None,
            r.date_since is None,
            r.folder_limit is None,
            r.sync_folders is None,
            r.account_type == AccountType::IMAP,
            r.sync_interval_min is None,
            r.known_folders is None,
            r.created_at == 0,
            r.updated_at == 0,
            r.use_proxy is None,
            !r.use_dangerous,
            r.pgp_key is None,
    {
        AccountV2 {
            id: 0,
            imap: None,
            enabled: false,
            email: String::new(),
            name: None,
            capabilities: None,
            date_since: None,
            folder_limit: None,
            sync_folders: None,
            account_type: AccountType::default(),
            sync_interval_min: None,
            known_folders: None,
            created_at: 0,
            updated_at: 0,
            use_proxy: None,
            use_dangerous: false,
            pgp_key: None,
        }
    }
}

/// An account, third and current version: adds `date_before`, `sync_batch_size` and
/// `created_by`.
#[derive(Clone, Debug, PartialEq, Eq)]
pub struct AccountV3 {
    pub id: u64,
    pub imap: Option<ImapConfig>,
    pub enabled: bool,
    pub email: String,
    pub name: Option<String>,
    pub capabilities: Option<Vec<String>>,
    pub date_since: Option<DateSince>,
    pub date_before: Option<RelativeDate>,
    pub folder_limit: Option<u32>,
    pub sync_folders: Option<Vec<String>>,
    pub account_type: AccountType,
    pub sync_interval_min: Option<i64>,
    pub sync_batch_size: Option<u32>,
    pub known_folders: Option<BTreeSet<String>>,
    pub created_at: i64,
    pub updated_at: i64,
    pub created_by: u64,
    pub use_proxy: Option<u64>,
    pub use_dangerous: bool,
    pub pgp_key: Option<String>,
}

impl Default for AccountV3 {
    fn default() -> (r: Self)
        ensures
            r.id == 0,
            r.imap is None,
            !r.enabled,
            r.email@ == Seq::<char>::empty(),
            r.name is None,
            r.capabilities is None,
            r.date_since is None,
            r.date_before is None,
            r.folder_limit is None,
            r.sync_folders is None,
            r.account_type == AccountType::IMAP,
            r.sync_interval_min is None,
            r.sync_batch_size is None,
            r.known_folders is None,
            r.created_at == 0,
            r.updated_at == 0,
            r.created_by == 0,
            r.use_proxy is None,
            !r.use_dangerous,
            r.pgp_key is None,
    {
        AccountV3 {
            id: 0,
            imap: None,
            enabled: false,
            email: String::new(),
            name: None,
            capabilities: None,
            date_since: None,
            date_before: None,
            folder_limit: None,
            sync_folders: None,
            account_type: AccountType::default(),
            sync_interval_min: None,
            sync_batch_size: None,
            known_folders: None,
            created_at: 0,
            updated_at: 0,
            created_by: 0,
            use_proxy: None,
            use_dangerous: false,
            pgp_key: None,
        }
    }
}

/// The primary key of an account: its time of creation and its id, with a `_` between them.
pub open spec fn account_key(created_at: int, id: nat) -> Seq<char> {
    signed_decimal(created_at) + seq!['_'] + decimal(id)
}

/// Writes the primary key of an account.
pub fn account_pk(created_at: i64, id: u64) -> (key: String)
    ensures
        key@ == account_key(created_at as int, id as nat),
{
    let mut key = String::new();
    push_signed_decimal(&mut key, created_at);
    key.push('_');
    push_decimal(&mut key, id);
    assert(key@ =~= account_key(created_at as int, id as nat));
    key
}

impl AccountV1 {
    /// The primary key of the account.
    pub fn pk(&self) -> (key: String)
        ensures
            key@ == account_key(self.created_at as int, self.id as nat),
    {
        account_pk(self.created_at, self.id)
    }
}

impl AccountV2 {
    /// The primary key of the account.
    pub fn pk(&self) -> (key: String)
        ensures
            key@ == account_key(self.created_at as int, self.id as nat),
    {
        account_pk(self.created_at, self.id)
    }
}

impl AccountV3 {
    /// The primary key of the account.
    pub fn pk(&self) -> (key: String)
        ensures
            key@ == account_key(self.created_at as int, self.id as nat),
    {
        account_pk(self.created_at, self.id)
    }
}

impl vstd::std_specs::convert::FromSpecImpl<AccountV1> for AccountV2 {
    open spec fn obeys_from_spec() -> bool {
        true
    }

    open spec fn from_spec(value: AccountV1) -> AccountV2 {
        AccountV2 {
            id: value.id,
            imap: value.imap,
            enabled: value.enabled,
            email: value.email,
            name: value.name,
            capabilities: value.capabilities,
            date_since: value.date_since,
            folder_limit: value.folder_limit,
            sync_folders: value.sync_folders,
            account_type: value.account_type,
            sync_interval_min: value.sync_interval_min,
            known_folders: value.known_folders,
            created_at: value.created_at,
            updated_at: value.updated_at,
            use_proxy: value.use_proxy,
            use_dangerous: false,
            pgp_key: None,
        }
    }
}

/// Nothing dangerous is allowed to an older account, and it has no key.
impl From<AccountV1> for AccountV2 {
    fn from(value: AccountV1) -> (r: Self) {
        AccountV2 {
            id: value.id,
            imap: value.imap,
            enabled: value.enabled,
            email: value.email,
            name: value.name,
            capabilities: value.capabilities,
            date_since: value.date_since,
            folder_limit: value.folder_limit,
            sync_folders: value.sync_folders,
            account_type: value.account_type,
            sync_interval_min: value.sync_interval_min,
            known_folders: value.known_folders,
            created_at: value.created_at,
            updated_at: value.updated_at,
            use_proxy: value.use_proxy,
            use_dangerous: false,
            pgp_key: None,
        }
    }
}

impl vstd::std_specs::convert::FromSpecImpl<AccountV2> for AccountV1 {
    open spec fn obeys_from_spec() -> bool {
        true
    }

    open spec fn from_spec(value: AccountV2) -> AccountV1 {
        AccountV1 {
            id: value.id,
            imap: value.imap,
            enabled: value.enabled,
            email: value.email,
            name: value.name,
            capabilities: value.capabilities,
            date_since: value.date_since,
            folder_limit: value.folder_limit,
            sync_folders: value.sync_folders,
            account_type: value.account_type,
            sync_interval_min: value.sync_interval_min,
            known_folders: value.known_folders,
            created_at: value.created_at,
            updated_at: value.updated_at,
            use_proxy: value.use_proxy,
        }
    }
}

/// What the first version has no field for is dropped.
impl From<AccountV2> for AccountV1 {
    fn from(value: AccountV2) -> (r: Self) {
        AccountV1 {
            id: value.id,
            imap: value.imap,
            enabled: value.enabled,
            email: value.email,
            name: value.name,
            capabilities: value.capabilities,
            date_since: value.date_since,
            folder_limit: value.folder_limit,
            sync_folders: value.sync_folders,
            account_type: value.account_type,
            sync_interval_min: value.sync_interval_min,
            known_folders: value.known_folders,
            created_at: value.created_at,
            updated_at: value.updated_at,
            use_proxy: value.use_proxy,
        }
    }
}

impl vstd::std_specs::convert::FromSpecImpl<AccountV2> for AccountV3 {
    open spec fn obeys_from_spec() -> bool {
        true
    }

    open spec fn from_spec(value: AccountV2) -> AccountV3 {
        AccountV3 {
            id: value.id,
            imap: value.imap,
            enabled: value.enabled,
            email: value.email,
            name: value.name,
            capabilities: value.capabilities,
            date_since: value.date_since,
            date_before: None,
            folder_limit: value.folder_limit,
            sync_folders: value.sync_folders,
            account_type: value.account_type,
            sync_interval_min: value.sync_interval_min,
            sync_batch_size: None,
            known_folders: value.known_folders,
            created_at: value.created_at,
            updated_at: value.updated_at,
            created_by: 1,
            use_proxy: value.use_proxy,
            use_dangerous: value.use_dangerous,
            pgp_key: value.pgp_key,
        }
    }
}

/// An older account has no end date and no batch size, and counts as created by user 1.
impl From<AccountV2> for AccountV3 {
    fn from(value: AccountV2) -> (r: Self) {
        AccountV3 {
            id: value.id,
            imap: value.imap,
            enabled: value.enabled,
            email: value.email,
            name: value.name,
            capabilities: value.capabilities,
            date_since: value.date_since,
            date_before: None,
            folder_limit: value.folder_limit,
            sync_folders: value.sync_folders,
            account_type: value.account_type,
            sync_interval_min: value.sync_interval_min,
            sync_batch_size: None,
            known_folders: value.known_folders,
            created_at: value.created_at,
            updated_at: value.updated_at,
            created_by: 1,
            use_proxy: value.use_proxy,
            use_dangerous: value.use_dangerous,
            pgp_key: value.pgp_key,
        }
    }
}

impl vstd::std_specs::convert::FromSpecImpl<AccountV3> for AccountV2 {
    open spec fn obeys_from_spec() -> bool {
        true
    }

    open spec fn from_spec(value: AccountV3) -> AccountV2 {
        AccountV2 {
            id: value.id,
            imap: value.imap,
            enabled: value.enabled,
            email: value.email,
            name: value.name,
            capabilities: value.capabilities,
            date_since: value.date_since,
            folder_limit: value.folder_limit,
            sync_folders: value.sync_folders,
            account_type: value.account_type,
            sync_interval_min: value.sync_interval_min,
            known_folders: value.known_folders,
            created_at: value.created_at,
            updated_at: value.updated_at,
            use_proxy: value.use_proxy,
            use_dangerous: value.use_dangerous,
            pgp_key: value.pgp_key,
        }
    }
}

/// What the second version has no field for is dropped.
impl From<AccountV3> for AccountV2 {
    fn from(value: AccountV3) -> (r: Self) {
        AccountV2 {
            id: value.id,
            imap: value.imap,
            enabled: value.enabled,
            email: value.email,
            name: value.name,
            capabilities: value.capabilities,
            date_since: value.date_since,
            folder_limit: value.folder_limit,
            sync_folders: value.sync_folders,
            account_type: value.account_type,
            sync_interval_min: value.sync_interval_min,
            known_folders: value.known_folders,
            created_at: value.created_at,
            updated_at: value.updated_at,
            use_proxy: value.use_proxy,
            use_dangerous: value.use_dangerous,
            pgp_key: value.pgp_key,
        }
    }
}

/// Raising an account from the first version to the second loses nothing.
pub proof fn law_v1_survives_v2(account: AccountV1)
    ensures
        AccountV1::from_spec(AccountV2::from_spec(account)) == account,
{
}

/// Raising an account from the second version to the third loses nothing.
pub proof fn law_v2_survives_v3(account: AccountV2)
    ensures
        AccountV2::from_spec(AccountV3::from_spec(account)) == account,
{
}

/// Raising an account from the first version to the third loses nothing.
pub proof fn law_v1_survives_v3(account: AccountV1)
    ensures
        AccountV1::from_spec(
            AccountV2::from_spec(AccountV3::from_spec(AccountV2::from_spec(account))),
        ) == account,
{
}

/// Lowering an account to the first version and raising it again resets the fields that the
/// second version added, and keeps every other.
pub proof fn law_v1_forgets(account: AccountV2)
    ensures
        AccountV2::from_spec(AccountV1::from_spec(account)) == (AccountV2 {
            use_dangerous: false,
            pgp_key: None,
            ..account
        }),
{
}

/// Lowering an account to the second version and raising it again resets the fields that the
/// third version added, and keeps every other.
pub proof fn law_v2_forgets(account: AccountV3)
    ensures
        AccountV3::from_spec(AccountV2::from_spec(account)) == (AccountV3 {
            date_before: None,
            sync_batch_size: None,
            created_by: 1,
            ..account
        }),
{
}

/// An account keeps its primary key through every change of version.
pub proof fn law_key_kept(v1: AccountV1, v2: AccountV2, v3: AccountV3)
    ensures
        account_key(
            AccountV2::from_spec(v1).created_at as int,
            AccountV2::from_spec(v1).id as nat,
        ) == account_key(v1.created_at as int, v1.id as nat),
        account_key(
            AccountV1::from_spec(v2).created_at as int,
            AccountV1::from_spec(v2).id as nat,
        ) == account_key(v2.created_at as int, v2.id as nat),
        account_key(
            AccountV3::from_spec(v2).created_at as int,
            AccountV3::from_spec(v2).id as nat,
        ) == account_key(v2.created_at as int, v2.id as nat),
        account_key(
            AccountV2::from_spec(v3).created_at as int,
            AccountV2::from_spec(v3).id as nat,
        ) == account_key(v3.created_at as int, v3.id as nat),
{
}

/// Two accounts share a primary key only where they share both the time of creation and
/// the id.
pub proof fn law_key_unique(created_a: int, id_a: nat, created_b: int, id_b: nat)
    requires
        account_key(created_a, id_a) == account_key(created_b, id_b),
    ensures
        created_a == created_b,
        id_a == id_b,
{
    let left = account_key(created_a, id_a);
    let right = account_key(created_b, id_b);
    let cut_a = signed_decimal(created_a).len() as int;
    let cut_b = signed_decimal(created_b).len() as int;
    let abs_a: nat = if created_a < 0 { (-created_a) as nat } else { created_a as nat };
    let abs_b: nat = if created_b < 0 { (-created_b) as nat } else { created_b as nat };
    lemma_decimal_digits(abs_a);
    lemma_decimal_digits(abs_b);
    lemma_decimal_digits(id_a);
    lemma_decimal_digits(id_b);
    assert(forall|i: int| 0 <= i < cut_a ==> #[trigger] signed_decimal(created_a)[i] != '_');
    assert(forall|i: int| 0 <= i < cut_b ==> #[trigger] signed_decimal(created_b)[i] != '_');
    assert(left[cut_a] == '_');
    assert(right[cut_b] == '_');
    if cut_a < cut_b {
        assert(right[cut_a] == signed_decimal(created_b)[cut_a]);
        assert(false);
    }
    if cut_b < cut_a {
        assert(left[cut_b] == signed_decimal(created_a)[cut_b]);
        assert(false);
    }
    assert(left.take(cut_a) =~= signed_decimal(created_a));
    assert(right.take(cut_b) =~= signed_decimal(created_b));
    assert(left.skip(cut_a + 1) =~= decimal(id_a));
    assert(right.skip(cut_b + 1) =~= decimal(id_b));
    lemma_decimal_injective(id_a, id_b);
    assert(signed_decimal(created_a)[0] == signed_decimal(created_b)[0]);
    if created_a < 0 {
        assert(created_b < 0) by {
            if created_b >= 0 {
                assert(decimal(abs_b)[0] == '-');
            }
        }
        assert(signed_decimal(created_a).skip(1) =~= decimal(abs_a));
        assert(signed_decimal(created_b).skip(1) =~= decimal(abs_b));
    } else {
        assert(created_b >= 0) by {
            if created_b < 0 {
                assert(decimal(abs_a)[0] == '-');
            }
        }
    }
    lemma_decimal_injective(abs_a, abs_b);
}

/// The second version of an account has every field of the first as it was, allows nothing
/// dangerous and has no key.
pub proof fn law_v2_keeps_every_field(account: AccountV1, raised: AccountV2)
    requires
        raised == AccountV2::from_spec(account),
    ensures
        <AccountV2 as FromSpec<AccountV1>>::obeys_from_spec(),
        raised.id == account.id,
        raised.imap == account.imap,
        raised.enabled == account.enabled,
        raised.email == account.email,
        raised.name == account.name,
        raised.capabilities == account.capabilities,
        raised.date_since == account.date_since,
        raised.folder_limit == account.folder_limit,
        raised.sync_folders == account.sync_folders,
        raised.account_type == account.account_type,
        raised.sync_interval_min == account.sync_interval_min,
        raised.known_folders == account.known_folders,
        raised.created_at == account.created_at,
        raised.updated_at == account.updated_at,
        raised.use_proxy == account.use_proxy,
        !raised.use_dangerous,
        raised.pgp_key is None,
{
}

/// The third version of an account has every field of the second as it was, no end date, no batch
/// size, and user 1 as its creator.
pub proof fn law_v3_keeps_every_field(account: AccountV2, raised: AccountV3)
    requires
        raised == AccountV3::from_spec(account),
    ensures
        <AccountV3 as FromSpec<AccountV2>>::obeys_from_spec(),
        raised.id == account.id,
        raised.imap == account.imap,
        raised.enabled == account.enabled,
        raised.email == account.email,
        raised.name == account.name,
        raised.capabilities == account.capabilities,
        raised.date_since == account.date_since,
        raised.folder_limit == account.folder_limit,
        raised.sync_folders == account.sync_folders,
        raised.account_type == account.account_type,
        raised.sync_interval_min == account.sync_interval_min,
        raised.known_folders == account.known_folders,
        raised.created_at == account.created_at,
        raised.updated_at == account.updated_at,
        raised.use_proxy == account.use_proxy,
        raised.use_dangerous == account.use_dangerous,
        raised.pgp_key == account.pgp_key,
        raised.date_before is None,
        raised.sync_batch_size is None,
        raised.created_by == 1,
{
}

/// Lowered to the second version, an account has every field of that version as it was.
pub proof fn law_lowered_to_v2_keeps_its_fields(account: AccountV3, lowered: AccountV2)
    requires
        lowered == AccountV2::from_spec(account),
    ensures
        <AccountV2 as FromSpec<AccountV3>>::obeys_from_spec(),
        lowered.id == account.id,
        lowered.imap == account.imap,
        lowered.enabled == account.enabled,
        lowered.email == account.email,
        lowered.name == account.name,
        lowered.capabilities == account.capabilities,
        lowered.date_since == account.date_since,
        lowered.folder_limit == account.folder_limit,
        lowered.sync_folders == account.sync_folders,
        lowered.account_type == account.account_type,
        lowered.sync_interval_min == account.sync_interval_min,
        lowered.known_folders == account.known_folders,
        lowered.created_at == account.created_at,
        lowered.updated_at == account.updated_at,
        lowered.use_proxy == account.use_proxy,
        lowered.use_dangerous == account.use_dangerous,
        lowered.pgp_key == account.pgp_key,
{
}

/// Lowered to the first version, an account has every field of that version as it was.
pub proof fn law_lowered_to_v1_keeps_its_fields(account: AccountV2, lowered: AccountV1)
    requires
        lowered == AccountV1::from_spec(account),
    ensures
        <AccountV1 as FromSpec<AccountV2>>::obeys_from_spec(),
        lowered.id == account.id,
        lowered.imap == account.imap,
        lowered.enabled == account.enabled,
        lowered.email == account.email,
        lowered.name == account.name,
        lowered.capabilities == account.capabilities,
        lowered.date_since == account.date_since,
        lowered.folder_limit == account.folder_limit,
        lowered.sync_folders == account.sync_folders,
        lowered.account_type == account.account_type,
        lowered.sync_interval_min == account.sync_interval_min,
        lowered.known_folders == account.known_folders,
        lowered.created_at == account.created_at,
        lowered.updated_at == account.updated_at,
        lowered.use_proxy == account.use_proxy,
{
}

/// The primary key tells the time of creation and the id, in this order and with a `_` between
/// them.
pub proof fn law_key_tells_creation_and_id(created_at: int, id: nat)
    ensures
        ({
            let key = account_key(created_at, id);
            let middle = signed_decimal(created_at).len() as int;
            &&& key.len() == middle + 1 + decimal(id).len()
            &&& key.take(middle) == signed_decimal(created_at)
            &&& key[middle] == '_'
            &&& key.skip(middle + 1) == decimal(id)
        }),
{
    let key = account_key(created_at, id);
    let middle = signed_decimal(created_at).len() as int;
    assert(key.take(middle) =~= signed_decimal(created_at));
    assert(key.skip(middle + 1) =~= decimal(id));
}

} // verus!
