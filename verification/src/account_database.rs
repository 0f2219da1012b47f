//! The account store: what is asked of it, what it answers, and a table in
//! memory that answers exactly so.
//!
//! The identity lifecycle never touches storage itself. It hands out a
//! `StoreRequest` and goes on when it is given the `StoreReply`. The rules
//! that every backing store has to keep are `answers`; `AccountTable` keeps
//! them in memory.

use crate::account_entity::{
    InsertableUserAccountEntity, InsertableUserAccountView, UserAccountEntity, UserAccountView,
};
use crate::error_data::Error;
use vstd::prelude::*;

verus! {

/// The uniqueness rules of the store: no two accounts share an identifier,
/// an access token or a user name.
pub open spec fn is_account_table(accounts: Seq<UserAccountView>) -> bool {
    forall|i: int, j: int|
        0 <= i < j < accounts.len() ==> {
            &&& (#[trigger] accounts[i]).user_id != (#[trigger] accounts[j]).user_id
            &&& accounts[i].access_token != accounts[j].access_token
            &&& !(accounts[i].user_name is Some && accounts[i].user_name == accounts[j].user_name)
        }
}

/// Whether `account` can be added without breaking a uniqueness rule.
pub open spec fn insertable(
    accounts: Seq<UserAccountView>,
    account: InsertableUserAccountView,
) -> bool {
    forall|i: int|
        0 <= i < accounts.len() ==> {
            &&& (#[trigger] accounts[i]).user_id != account.user_id
            &&& accounts[i].access_token != account.access_token
            &&& !(account.user_name is Some && accounts[i].user_name == account.user_name)
        }
}

/// Whether some account has the user name `user_name`.
pub open spec fn has_user_name(accounts: Seq<UserAccountView>, user_name: Seq<char>) -> bool {
    exists|i: int| 0 <= i < accounts.len() && (#[trigger] accounts[i]).user_name == Some(user_name)
}

/// Whether some account holds the access token `access_token`.
pub open spec fn has_access_token(accounts: Seq<UserAccountView>, access_token: Seq<char>) -> bool {
    exists|i: int| 0 <= i < accounts.len() && (#[trigger] accounts[i]).access_token == access_token
}

/// Whether some account has the identifier `user_id`.
pub open spec fn has_user_id(accounts: Seq<UserAccountView>, user_id: Seq<char>) -> bool {
    exists|i: int| 0 <= i < accounts.len() && (#[trigger] accounts[i]).user_id == user_id
}

/// Whether an account other than `user_id`'s holds `access_token`.
pub open spec fn token_taken_by_other(
    accounts: Seq<UserAccountView>,
    user_id: Seq<char>,
    access_token: Seq<char>,
) -> bool {
    exists|i: int|
        0 <= i < accounts.len() && (#[trigger] accounts[i]).user_id != user_id
            && accounts[i].access_token == access_token
}

/// The accounts without those that hold the access token `access_token`,
/// in their order.
pub open spec fn without_token(accounts: Seq<UserAccountView>, access_token: Seq<char>) -> Seq<
    UserAccountView,
>
    decreases accounts.len(),
{
    if accounts.len() == 0 {
        accounts
    } else {
        let rest = without_token(accounts.drop_last(), access_token);
        if accounts.last().access_token == access_token {
            rest
        } else {
            rest.push(accounts.last())
        }
    }
}

/// Whether a guest, an account without a user name, holds the access token
/// `access_token`.
pub open spec fn has_guest_token(accounts: Seq<UserAccountView>, access_token: Seq<char>) -> bool {
    exists|i: int|
        0 <= i < accounts.len() && (#[trigger] accounts[i]).access_token == access_token
            && accounts[i].user_name is None
}

/// The table without the guest that holds the access token `access_token`.
/// Where a guest holds it, the holder is gone; where an account with a user
/// name holds it, or none at all, every account stays. No two accounts of a
/// table hold one token.
pub open spec fn without_guest(accounts: Seq<UserAccountView>, access_token: Seq<char>) -> Seq<
    UserAccountView,
> {
    if has_guest_token(accounts, access_token) {
        without_token(accounts, access_token)
    } else {
        accounts
    }
}

/// Where no account holds the token, taking it out changes nothing.
pub proof fn lemma_without_absent_token(accounts: Seq<UserAccountView>, access_token: Seq<char>)
    requires
        !has_access_token(accounts, access_token),
    ensures
        without_token(accounts, access_token) == accounts,
    decreases accounts.len(),
{
    if accounts.len() > 0 {
        let front = accounts.drop_last();
        assert(accounts[accounts.len() - 1].access_token != access_token);
        assert forall|i: int| 0 <= i < front.len() implies (#[trigger] front[i]).access_token
            != access_token by {
            assert(accounts[i].access_token != access_token);
        }
        lemma_without_absent_token(front, access_token);
        assert(front.push(accounts.last()) =~= accounts);
    }
}

/// Where exactly the account at `at` holds the token, taking the token out
/// removes that account and nothing else.
pub proof fn lemma_without_token_at(
    accounts: Seq<UserAccountView>,
    access_token: Seq<char>,
    at: int,
)
    requires
        0 <= at < accounts.len(),
        accounts[at].access_token == access_token,
        forall|i: int|
            0 <= i < accounts.len() && i != at ==> (#[trigger] accounts[i]).access_token
                != access_token,
    ensures
        without_token(accounts, access_token) == accounts.remove(at),
    decreases accounts.len(),
{
    let front = accounts.drop_last();
    if at == accounts.len() - 1 {
        assert forall|i: int| 0 <= i < front.len() implies (#[trigger] front[i]).access_token
            != access_token by {
            assert(accounts[i].access_token != access_token);
        }
        assert(!has_access_token(front, access_token));
        lemma_without_absent_token(front, access_token);
        assert(accounts.remove(at) =~= front);
    } else {
        assert(accounts[accounts.len() - 1].access_token != access_token);
        assert forall|i: int| 0 <= i < front.len() && i != at implies (
        #[trigger] front[i]).access_token != access_token by {
            assert(accounts[i].access_token != access_token);
        }
        lemma_without_token_at(front, access_token, at);
        assert(front.remove(at).push(accounts.last()) =~= accounts.remove(at));
    }
}

/// What is left when a token is taken out: exactly the accounts that do not
/// hold it, and still a table.
pub proof fn lemma_without_token_keeps(accounts: Seq<UserAccountView>, access_token: Seq<char>)
    ensures
        !has_access_token(without_token(accounts, access_token), access_token),
        forall|account: UserAccountView|
            without_token(accounts, access_token).contains(account) <==> (accounts.contains(
                account,
            ) && account.access_token != access_token),
        without_token(accounts, access_token).len() <= accounts.len(),
        is_account_table(accounts) ==> is_account_table(without_token(accounts, access_token)),
        is_account_table(accounts) ==> without_token(accounts, access_token).len() + 1
            >= accounts.len(),
    decreases accounts.len(),
{
    let left = without_token(accounts, access_token);
    if accounts.len() == 0 {
        assert forall|account: UserAccountView| left.contains(account) <==> (accounts.contains(
            account,
        ) && account.access_token != access_token) by {}
    } else {
        let front = accounts.drop_last();
        let rest = without_token(front, access_token);
        lemma_without_token_keeps(front, access_token);
        assert forall|account: UserAccountView| left.contains(account) <==> (accounts.contains(
            account,
        ) && account.access_token != access_token) by {
            if left.contains(account) {
                let k = choose|k: int| 0 <= k < left.len() && left[k] == account;
                if k < rest.len() {
                    assert(rest.contains(account));
                    assert(front.contains(account));
                    let m = choose|m: int| 0 <= m < front.len() && front[m] == account;
                    assert(accounts[m] == account);
                } else {
                    assert(account == accounts.last());
                    assert(accounts[accounts.len() - 1] == account);
                }
            }
            if accounts.contains(account) && account.access_token != access_token {
                let m = choose|m: int| 0 <= m < accounts.len() && accounts[m] == account;
                if m < front.len() {
                    assert(front[m] == account);
                    assert(front.contains(account));
                    assert(rest.contains(account));
                    let k = choose|k: int| 0 <= k < rest.len() && rest[k] == account;
                    assert(left[k] == account);
                } else {
                    assert(left[left.len() - 1] == account);
                }
            }
        }
        assert(!has_access_token(left, access_token)) by {
            if has_access_token(left, access_token) {
                let k = choose|k: int|
                    0 <= k < left.len() && (#[trigger] left[k]).access_token == access_token;
                assert(left.contains(left[k]));
            }
        }
        if is_account_table(accounts) {
            assert(is_account_table(front)) by {
                assert forall|i: int, j: int| 0 <= i < j < front.len() implies {
                    &&& (#[trigger] front[i]).user_id != (#[trigger] front[j]).user_id
                    &&& front[i].access_token != front[j].access_token
                    &&& !(front[i].user_name is Some && front[i].user_name == front[j].user_name)
                } by {
                    assert(front[i] == accounts[i] && front[j] == accounts[j]);
                }
            }
            if accounts.last().access_token == access_token {
                assert forall|i: int| 0 <= i < front.len() implies (
                #[trigger] front[i]).access_token != access_token by {
                    assert(front[i] == accounts[i]);
                    assert(accounts[i].access_token != accounts[accounts.len() - 1].access_token);
                }
                assert(!has_access_token(front, access_token));
                lemma_without_absent_token(front, access_token);
            } else {
                assert forall|i: int, j: int| 0 <= i < j < left.len() implies {
                    &&& (#[trigger] left[i]).user_id != (#[trigger] left[j]).user_id
                    &&& left[i].access_token != left[j].access_token
                    &&& !(left[i].user_name is Some && left[i].user_name == left[j].user_name)
                } by {
                    if j < rest.len() {
                        assert(left[i] == rest[i] && left[j] == rest[j]);
                    } else {
                        assert(left[i] == rest[i]);
                        assert(rest.contains(rest[i]));
                        assert(front.contains(rest[i]));
                        let m = choose|m: int| 0 <= m < front.len() && front[m] == rest[i];
                        assert(accounts[m] == left[i]);
                        assert(accounts[accounts.len() - 1] == left[j]);
                    }
                }
            }
        }
    }
}

/// What the lifecycle asks of the store. Each request concerns one account.
pub enum StoreRequest {
    /// Add this account.
    InsertAccount(InsertableUserAccountEntity),
    /// The account with this user name.
    FindByUserName(String),
    /// The account that holds this access token.
    FindByAccessToken(String),
    /// Replace the pair of tokens of the account with this identifier.
    UpdateAuthToken { user_id: String, access_token: String, refresh_token: String },
    /// Remove the account that holds this access token.
    DeleteByAccessToken(String),
    /// Remove the account that holds this access token if it is a guest's.
    DeleteGuestByAccessToken(String),
}

/// What a `StoreRequest` holds.
pub enum StoreRequestView {
    InsertAccount(InsertableUserAccountView),
    FindByUserName(Seq<char>),
    FindByAccessToken(Seq<char>),
    UpdateAuthToken { user_id: Seq<char>, access_token: Seq<char>, refresh_token: Seq<char> },
    DeleteByAccessToken(Seq<char>),
    DeleteGuestByAccessToken(Seq<char>),
}

impl View for StoreRequest {
    type V = StoreRequestView;

    open spec fn view(&self) -> StoreRequestView {
        match self {
            StoreRequest::InsertAccount(account) => StoreRequestView::InsertAccount(account@),
            StoreRequest::FindByUserName(name) => StoreRequestView::FindByUserName(name@),
            StoreRequest::FindByAccessToken(token) => StoreRequestView::FindByAccessToken(token@),
            StoreRequest::UpdateAuthToken { user_id, access_token, refresh_token } => {
                StoreRequestView::UpdateAuthToken {
                    user_id: user_id@,
                    access_token: access_token@,
                    refresh_token: refresh_token@,
                }
            },
            StoreRequest::DeleteByAccessToken(token) => StoreRequestView::DeleteByAccessToken(
                token@,
            ),
            StoreRequest::DeleteGuestByAccessToken(token) => {
                StoreRequestView::DeleteGuestByAccessToken(token@)
            },
        }
    }
}

/// What the store answers.
pub enum StoreReply {
    /// The account that was added, found or changed.
    Account(UserAccountEntity),
    /// There is no such account.
    NotFound,
    /// So many accounts were removed; none is a valid answer.
    Deleted(usize),
    /// The store turned the request down or could not carry it out.
    Failed,
}

/// What a `StoreReply` holds.
pub enum StoreReplyView {
    Account(UserAccountView),
    NotFound,
    Deleted(usize),
    Failed,
}

impl View for StoreReply {
    type V = StoreReplyView;

    open spec fn view(&self) -> StoreReplyView {
        match self {
            StoreReply::Account(account) => StoreReplyView::Account(account@),
            StoreReply::NotFound => StoreReplyView::NotFound,
            StoreReply::Deleted(count) => StoreReplyView::Deleted(*count),
            StoreReply::Failed => StoreReplyView::Failed,
        }
    }
}

/// The rules of the store: `reply` and `after` are what a store that holds
/// `before` gives to `request` at the time `now`.
pub open spec fn answers(
    before: Seq<UserAccountView>,
    request: StoreRequestView,
    now: i64,
    reply: StoreReplyView,
    after: Seq<UserAccountView>,
) -> bool {
    match request {
        StoreRequestView::InsertAccount(account) => {
            if insertable(before, account) {
                &&& reply == StoreReplyView::Account(UserAccountView::stored(account, now))
                &&& after == before.push(UserAccountView::stored(account, now))
            } else {
                reply == StoreReplyView::Failed && after == before
            }
        },
        StoreRequestView::FindByUserName(user_name) => {
            &&& after == before
            &&& match reply {
                StoreReplyView::Account(account) => before.contains(account) && account.user_name
                    == Some(user_name),
                StoreReplyView::NotFound => !has_user_name(before, user_name),
                _ => false,
            }
        },
        StoreRequestView::FindByAccessToken(access_token) => {
            &&& after == before
            &&& match reply {
                StoreReplyView::Account(account) => before.contains(account)
                    && account.access_token == access_token,
                StoreReplyView::NotFound => !has_access_token(before, access_token),
                _ => false,
            }
        },
        StoreRequestView::UpdateAuthToken { user_id, access_token, refresh_token } => {
            match reply {
                StoreReplyView::Account(account) => {
                    &&& !token_taken_by_other(before, user_id, access_token)
                    &&& exists|i: int|
                        0 <= i < before.len() && (#[trigger] before[i]).user_id == user_id
                            && account == before[i].with_tokens(access_token, refresh_token)
                            && after == before.update(i, account)
                },
                StoreReplyView::NotFound => after == before && !has_user_id(before, user_id),
                StoreReplyView::Failed => after == before && has_user_id(before, user_id)
                    && token_taken_by_other(before, user_id, access_token),
                _ => false,
            }
        },
        StoreRequestView::DeleteByAccessToken(access_token) => {
            &&& after == without_token(before, access_token)
            &&& reply == StoreReplyView::Deleted((before.len() - after.len()) as usize)
        },
        StoreRequestView::DeleteGuestByAccessToken(access_token) => {
            &&& after == without_guest(before, access_token)
            &&& reply == StoreReplyView::Deleted((before.len() - after.len()) as usize)
        },
    }
}

/// A store that answers by its rules stays a table.
pub proof fn lemma_answers_keeps_table(
    before: Seq<UserAccountView>,
    request: StoreRequestView,
    now: i64,
    reply: StoreReplyView,
    after: Seq<UserAccountView>,
)
    requires
        is_account_table(before),
        answers(before, request, now, reply, after),
    ensures
        is_account_table(after),
{
    match request {
        StoreRequestView::InsertAccount(account) => {},
        StoreRequestView::FindByUserName(_) => {},
        StoreRequestView::FindByAccessToken(_) => {},
        StoreRequestView::UpdateAuthToken { user_id, access_token, refresh_token } => {
            if let StoreReplyView::Account(account) = reply {
                let at = choose|i: int|
                    0 <= i < before.len() && (#[trigger] before[i]).user_id == user_id && account
                        == before[i].with_tokens(access_token, refresh_token) && after
                        == before.update(i, account);
                assert forall|i: int, j: int| 0 <= i < j < after.len() implies {
                    &&& (#[trigger] after[i]).user_id != (#[trigger] after[j]).user_id
                    &&& after[i].access_token != after[j].access_token
                    &&& !(after[i].user_name is Some && after[i].user_name == after[j].user_name)
                } by {
                    assert(before[i].user_id != before[j].user_id);
                    assert(before[i].access_token != before[j].access_token);
                    assert(before[at].user_id == user_id);
                }
            }
        },
        StoreRequestView::DeleteByAccessToken(access_token) => {
            lemma_without_token_keeps(before, access_token);
        },
        StoreRequestView::DeleteGuestByAccessToken(access_token) => {
            lemma_without_token_keeps(before, access_token);
        },
    }
}

/// An account store in memory.
pub struct AccountTable {
    rows: Vec<UserAccountEntity>,
}

impl View for AccountTable {
    type V = Seq<UserAccountView>;

    closed spec fn view(&self) -> Seq<UserAccountView> {
        views_of(self.rows@)
    }
}

/// What a sequence of rows holds.
spec fn views_of(rows: Seq<UserAccountEntity>) -> Seq<UserAccountView> {
    rows.map_values(|row: UserAccountEntity| row@)
}

impl AccountTable {
    /// Whether the table keeps the uniqueness rules. Every table made and
    /// changed through this module does.
    pub open spec fn wf(&self) -> bool {
        is_account_table(self@)
    }

    /// A table without accounts.
    pub fn new() -> (table: AccountTable)
        ensures
            table@ == Seq::<UserAccountView>::empty(),
            table.wf(),
    {
        let table = AccountTable { rows: Vec::new() };
        assert(table@ =~= Seq::<UserAccountView>::empty());
        table
    }

    /// How many accounts there are.
    pub fn len(&self) -> (count: usize)
        ensures
            count == self@.len(),
    {
        self.rows.len()
    }

    /// Where the account with the identifier `user_id` stands.
    fn position_of_user_id(&self, user_id: &String) -> (position: Option<usize>)
        ensures
            match position {
                Some(i) => i < self@.len() && self@[i as int].user_id == user_id@,
                None => !has_user_id(self@, user_id@),
            },
    {
        let mut i: usize = 0;
        while i < self.rows.len()
            invariant
                i <= self.rows.len(),
                self@.len() == self.rows.len(),
                forall|k: int| 0 <= k < i ==> (#[trigger] self@[k]).user_id != user_id@,
            decreases self.rows.len() - i,
        {
            if self.rows[i].user_id == *user_id {
                return Some(i);
            }
            i = i + 1;
        }
        None
    }

    /// Where the account that holds `access_token` stands.
    fn position_of_access_token(&self, access_token: &String) -> (position: Option<usize>)
        ensures
            match position {
                Some(i) => i < self@.len() && self@[i as int].access_token == access_token@,
                None => !has_access_token(self@, access_token@),
            },
    {
        let mut i: usize = 0;
        while i < self.rows.len()
            invariant
                i <= self.rows.len(),
                self@.len() == self.rows.len(),
                forall|k: int| 0 <= k < i ==> (#[trigger] self@[k]).access_token != access_token@,
            decreases self.rows.len() - i,
        {
            if self.rows[i].access_token == *access_token {
                return Some(i);
            }
            i = i + 1;
        }
        None
    }

    /// Where the account with the user name `user_name` stands.
    fn position_of_user_name(&self, user_name: &String) -> (position: Option<usize>)
        ensures
            match position {
                Some(i) => i < self@.len() && self@[i as int].user_name == Some(user_name@),
                None => !has_user_name(self@, user_name@),
            },
    {
        let mut i: usize = 0;
        while i < self.rows.len()
            invariant
                i <= self.rows.len(),
                self@.len() == self.rows.len(),
                forall|k: int| 0 <= k < i ==> (#[trigger] self@[k]).user_name != Some(user_name@),
            decreases self.rows.len() - i,
        {
            let found = match &self.rows[i].user_name {
                Some(name) => *name == *user_name,
                None => false,
            };
            if found {
                return Some(i);
            }
            i = i + 1;
        }
        None
    }

    /// Whether `account` can be added without breaking a uniqueness rule.
    fn admits(&self, account: &InsertableUserAccountEntity) -> (yes: bool)
        ensures
            yes == insertable(self@, account@),
    {
        let mut i: usize = 0;
        while i < self.rows.len()
            invariant
                i <= self.rows.len(),
                self@.len() == self.rows.len(),
                forall|k: int|
                    0 <= k < i ==> {
                        &&& (#[trigger] self@[k]).user_id != account@.user_id
                        &&& self@[k].access_token != account@.access_token
                        &&& !(account@.user_name is Some && self@[k].user_name
                            == account@.user_name)
                    },
            decreases self.rows.len() - i,
        {
            let row = &self.rows[i];
            assert(row@ == self@[i as int]);
            let same_name = match (&row.user_name, &account.user_name) {
                (Some(mine), Some(theirs)) => *mine == *theirs,
                _ => false,
            };
            if row.user_id == account.user_id || row.access_token == account.access_token
                || same_name {
                return false;
            }
            i = i + 1;
        }
        true
    }
}

/// Adds `account` to the table, stamped with the time `created_at`. An
/// account that would share its identifier, its access token or its user
/// name with one that is there is turned down, and the table stays as it is.
pub fn insert_user_account(
    table: &mut AccountTable,
    account: InsertableUserAccountEntity,
    created_at: i64,
) -> (inserted: Result<UserAccountEntity, Error>)
    requires
        old(table).wf(),
    ensures
        final(table).wf(),
        match inserted {
            Ok(row) => {
                &&& insertable(old(table)@, account@)
                &&& row@ == UserAccountView::stored(account@, created_at)
                &&& final(table)@ == old(table)@.push(row@)
            },
            Err(e) => {
                &&& e == Error::StorageError
                &&& !insertable(old(table)@, account@)
                &&& final(table)@ == old(table)@
            },
        },
{
    if !table.admits(&account) {
        return Err(Error::StorageError);
    }
    let row = UserAccountEntity {
        user_id: account.user_id,
        user_name: account.user_name,
        created_at,
        password_hash: account.password_hash,
        password_hash_salt: account.password_hash_salt,
        password_hash_algorithm: account.password_hash_algorithm,
        access_token: account.access_token,
        refresh_token: account.refresh_token,
    };
    let copy = row.duplicate();
    let ghost before = table@;
    table.rows.push(row);
    assert(table@ =~= before.push(copy@));
    Ok(copy)
}

/// The account with the user name `user_name`.
pub fn get_user_account_by_user_name(table: &AccountTable, user_name: String) -> (found: Result<
    UserAccountEntity,
    Error,
>)
    ensures
        match found {
            Ok(row) => table@.contains(row@) && row@.user_name == Some(user_name@),
            Err(e) => e == Error::NotFound && !has_user_name(table@, user_name@),
        },
{
    match table.position_of_user_name(&user_name) {
        Some(i) => {
            let row = table.rows[i].duplicate();
            assert(table@[i as int] == row@);
            Ok(row)
        },
        None => Err(Error::NotFound),
    }
}

/// The account that holds the access token `access_token`.
pub fn get_user_account_by_access_token(table: &AccountTable, access_token: String) -> (found:
    Result<UserAccountEntity, Error>)
    ensures
        match found {
            Ok(row) => table@.contains(row@) && row@.access_token == access_token@,
            Err(e) => e == Error::NotFound && !has_access_token(table@, access_token@),
        },
{
    match table.position_of_access_token(&access_token) {
        Some(i) => {
            let row = table.rows[i].duplicate();
            assert(table@[i as int] == row@);
            Ok(row)
        },
        None => Err(Error::NotFound),
    }
}

/// The account with the identifier `user_id`.
pub fn get_user_account_by_user_id(table: &AccountTable, user_id: String) -> (found: Result<
    UserAccountEntity,
    Error,
>)
    ensures
        match found {
            Ok(row) => table@.contains(row@) && row@.user_id == user_id@,
            Err(e) => e == Error::NotFound && !has_user_id(table@, user_id@),
        },
{
    match table.position_of_user_id(&user_id) {
        Some(i) => {
            let row = table.rows[i].duplicate();
            assert(table@[i as int] == row@);
            Ok(row)
        },
        None => Err(Error::NotFound),
    }
}

/// Replaces the pair of tokens of the account with the identifier
/// `user_id`. Without such an account nothing is found; an access token that
/// another account holds is turned down. Either way the table stays as it
/// is.
pub fn update_auth_token(
    table: &mut AccountTable,
    user_id: String,
    access_token: String,
    refresh_token: String,
) -> (updated: Result<UserAccountEntity, Error>)
    requires
        old(table).wf(),
    ensures
        final(table).wf(),
        match updated {
            Ok(row) => {
                &&& !token_taken_by_other(old(table)@, user_id@, access_token@)
                &&& exists|i: int|
                    0 <= i < old(table)@.len() && (#[trigger] old(table)@[i]).user_id == user_id@
                        && row@ == old(table)@[i].with_tokens(access_token@, refresh_token@)
                        && final(table)@ == old(table)@.update(i, row@)
            },
            Err(e) => {
                &&& final(table)@ == old(table)@
                &&& if has_user_id(old(table)@, user_id@) {
                    e == Error::StorageError && token_taken_by_other(
                        old(table)@,
                        user_id@,
                        access_token@,
                    )
                } else {
                    e == Error::NotFound
                }
            },
        },
{
    let at = match table.position_of_user_id(&user_id) {
        Some(i) => i,
        None => {
            return Err(Error::NotFound);
        },
    };
    let ghost before = table@;
    match table.position_of_access_token(&access_token) {
        Some(j) => {
            if j != at {
                assert(before[j as int].user_id != user_id@) by {
                    if j < at {
                        assert(before[j as int].user_id != before[at as int].user_id);
                    } else {
                        assert(before[at as int].user_id != before[j as int].user_id);
                    }
                }
                return Err(Error::StorageError);
            }
            assert(!token_taken_by_other(before, user_id@, access_token@)) by {
                if token_taken_by_other(before, user_id@, access_token@) {
                    let k = choose|k: int|
                        0 <= k < before.len() && (#[trigger] before[k]).user_id != user_id@
                            && before[k].access_token == access_token@;
                    if k < at {
                        assert(before[k].access_token != before[at as int].access_token);
                    } else {
                        assert(before[at as int].access_token != before[k].access_token);
                    }
                }
            }
        },
        None => {},
    }
    let mut row = table.rows[at].duplicate();
    row.access_token = access_token;
    row.refresh_token = refresh_token;
    let copy = row.duplicate();
    table.rows.set(at, row);
    assert(table@ =~= before.update(at as int, copy@));
    assert(copy@ == before[at as int].with_tokens(access_token@, refresh_token@));
    assert(is_account_table(table@)) by {
        assert forall|i: int, j: int| 0 <= i < j < table@.len() implies {
            &&& (#[trigger] table@[i]).user_id != (#[trigger] table@[j]).user_id
            &&& table@[i].access_token != table@[j].access_token
            &&& !(table@[i].user_name is Some && table@[i].user_name == table@[j].user_name)
        } by {
            assert(before[i].user_id != before[j].user_id);
            assert(before[i].access_token != before[j].access_token);
        }
    }
    Ok(copy)
}

/// Removes the account that holds the access token `access_token` and says
/// how many accounts went: one, or none where no account holds it.
pub fn delete_user_account(table: &mut AccountTable, access_token: String) -> (num_deleted: usize)
    requires
        old(table).wf(),
    ensures
        final(table).wf(),
        final(table)@ == without_token(old(table)@, access_token@),
        num_deleted == old(table)@.len() - final(table)@.len(),
        num_deleted == (if has_access_token(old(table)@, access_token@) {
            1usize
        } else {
            0usize
        }),
{
    let ghost before = table@;
    proof {
        lemma_without_token_keeps(before, access_token@);
    }
    match table.position_of_access_token(&access_token) {
        Some(at) => {
            proof {
                assert forall|i: int| 0 <= i < before.len() && i != at implies (
                #[trigger] before[i]).access_token != access_token@ by {
                    if i < at {
                        assert(before[i].access_token != before[at as int].access_token);
                    } else {
                        assert(before[at as int].access_token != before[i].access_token);
                    }
                }
                lemma_without_token_at(before, access_token@, at as int);
            }
            let _ = table.rows.remove(at);
            assert(table@ =~= before.remove(at as int));
            1
        },
        None => {
            proof {
                lemma_without_absent_token(before, access_token@);
            }
            0
        },
    }
}

/// Removes the account that holds the access token `access_token` if it is
/// a guest's, and says how many accounts went: one, or none where no guest
/// holds the token. An account with a user name is never removed.
pub fn delete_guest_account(table: &mut AccountTable, access_token: String) -> (num_deleted: usize)
    requires
        old(table).wf(),
    ensures
        final(table).wf(),
        final(table)@ == without_guest(old(table)@, access_token@),
        num_deleted == old(table)@.len() - final(table)@.len(),
        num_deleted == (if has_guest_token(old(table)@, access_token@) {
            1usize
        } else {
            0usize
        }),
{
    let ghost before = table@;
    match table.position_of_access_token(&access_token) {
        Some(at) => {
            assert(before[at as int] == table.rows[at as int]@);
            if table.rows[at].user_name.is_some() {
                assert(!has_guest_token(before, access_token@)) by {
                    if has_guest_token(before, access_token@) {
                        let i = choose|i: int|
                            0 <= i < before.len() && (#[trigger] before[i]).access_token
                                == access_token@ && before[i].user_name is None;
                        if i < at {
                            assert(before[i].access_token != before[at as int].access_token);
                        } else if at < i {
                            assert(before[at as int].access_token != before[i].access_token);
                        }
                    }
                }
                0
            } else {
                assert(has_guest_token(before, access_token@));
                delete_user_account(table, access_token)
            }
        },
        None => 0,
    }
}

/// Answers a request as the rules of the store demand, at the time `now`.
pub fn serve(table: &mut AccountTable, request: StoreRequest, now: i64) -> (reply: StoreReply)
    requires
        old(table).wf(),
    ensures
        final(table).wf(),
        answers(old(table)@, request@, now, reply@, final(table)@),
{
    match request {
        StoreRequest::InsertAccount(account) => match insert_user_account(table, account, now) {
            Ok(row) => StoreReply::Account(row),
            Err(_) => StoreReply::Failed,
        },
        StoreRequest::FindByUserName(user_name) => match get_user_account_by_user_name(
            table,
            user_name,
        ) {
            Ok(row) => StoreReply::Account(row),
            Err(_) => StoreReply::NotFound,
        },
        StoreRequest::FindByAccessToken(access_token) => match get_user_account_by_access_token(
            table,
            access_token,
        ) {
            Ok(row) => StoreReply::Account(row),
            Err(_) => StoreReply::NotFound,
        },
        StoreRequest::UpdateAuthToken { user_id, access_token, refresh_token } => {
            match update_auth_token(table, user_id, access_token, refresh_token) {
                Ok(row) => StoreReply::Account(row),
                Err(Error::NotFound) => StoreReply::NotFound,
                Err(_) => StoreReply::Failed,
            }
        },
        StoreRequest::DeleteByAccessToken(access_token) => StoreReply::Deleted(
            delete_user_account(table, access_token),
        ),
        StoreRequest::DeleteGuestByAccessToken(access_token) => StoreReply::Deleted(
            delete_guest_account(table, access_token),
        ),
    }
}

} // verus!
