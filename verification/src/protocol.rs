//! The data model of the messaging core: accounts, conversations, wrapped
//! keys, encrypted messages, and the wire actions exchanged over a live
//! connection. Every type has a mathematical view that the contracts of the
//! core are stated over.

use vstd::prelude::*;

verus! {

/// A server-side account record, as the account directory stores it.
///
/// `session_id` is the single active session token; an empty string means
/// the account is not logged in. `public_key` holds a PEM-encoded RSA public
/// key; `priv_key_enc` is the private key, encrypted under a key derived
/// from the user's password, which the server cannot read.
pub struct Account {
    pub username: String,
    pub hash: String,
    pub public_key: Vec<u8>,
    pub priv_key_enc: Vec<u8>,
    pub friends: Vec<String>,
    pub session_id: String,
}

/// The mathematical value of an [`Account`].
#[verifier::ext_equal]
pub struct AccountView {
    pub username: Seq<char>,
    pub hash: Seq<char>,
    pub public_key: Seq<u8>,
    pub priv_key_enc: Seq<u8>,
    pub friends: Seq<Seq<char>>,
    pub session_id: Seq<char>,
}

impl View for Account {
    type V = AccountView;

    open spec fn view(&self) -> AccountView {
        AccountView {
            username: self.username@,
            hash: self.hash@,
            public_key: self.public_key@,
            priv_key_enc: self.priv_key_enc@,
            friends: self.friends@.map_values(|s: String| s@),
            session_id: self.session_id@,
        }
    }
}

impl Account {
    /// Clones the account, field for field.
    pub fn duplicate(&self) -> (r: Account)
        ensures
            r@ == self@,
    {
        let r = Account {
            username: self.username.clone(),
            hash: self.hash.clone(),
            public_key: self.public_key.clone(),
            priv_key_enc: self.priv_key_enc.clone(),
            friends: clone_names(&self.friends),
            session_id: self.session_id.clone(),
        };
        proof {
            assert(r@ =~= self@);
        }
        r
    }
}

/// The client-facing shape of an account: what a client may send or be sent,
/// never what the directory stores.
pub struct ClientAccount {
    pub username: String,
    pub password: String,
    pub friends: Vec<String>,
    pub conversations: Vec<Conversation>,
    pub session_id: String,
}

/// What a profile-update request asks the directory to change.
pub enum UpdateAction {
    Unchanged,
    ChangeUsername,
    ChangePassword,
    AddFriend,
    RemoveFriend,
}

/// A single-field profile-update request, authenticated by session id.
pub struct UpdateUser {
    pub data: String,
    pub action: UpdateAction,
    pub session_id: String,
}

/// A conversation's symmetric secret, encrypted under `owner`'s public key,
/// so that only `owner` can recover it. The server keeps only this
/// ciphertext.
pub struct UserKey {
    pub owner: String,
    pub key: Vec<u8>,
}

/// The mathematical value of a [`UserKey`].
#[verifier::ext_equal]
pub struct KeyView {
    pub owner: Seq<char>,
    pub bytes: Seq<u8>,
}

impl View for UserKey {
    type V = KeyView;

    open spec fn view(&self) -> KeyView {
        KeyView { owner: self.owner@, bytes: self.key@ }
    }
}

/// A raw, unencrypted message as a client composes it, before encryption.
pub struct RawMessage {
    pub message: Vec<u8>,
    pub time: String,
}

/// An encrypted message. `dest_convo_id` and `sender_sid` are transient
/// routing fields: they exist only to validate the request and must never be
/// persisted or forwarded to peers.
pub struct EncryptedMessage {
    pub data: Vec<u8>,
    pub sender: String,
    pub dest_convo_id: String,
    pub sender_sid: String,
}

/// The mathematical value of an [`EncryptedMessage`].
#[verifier::ext_equal]
pub struct MsgView {
    pub data: Seq<u8>,
    pub sender: Seq<char>,
    pub dest_convo_id: Seq<char>,
    pub sender_sid: Seq<char>,
}

impl View for EncryptedMessage {
    type V = MsgView;

    open spec fn view(&self) -> MsgView {
        MsgView {
            data: self.data@,
            sender: self.sender@,
            dest_convo_id: self.dest_convo_id@,
            sender_sid: self.sender_sid@,
        }
    }
}

impl MsgView {
    /// Whether this message carries no transient routing data: the only form
    /// that may be persisted or forwarded.
    pub open spec fn is_stripped(self) -> bool {
        self.dest_convo_id == Seq::<char>::empty() && self.sender_sid == Seq::<char>::empty()
    }

    /// The persisted form of this message: payload and sender only, with the
    /// transient destination id and session id cleared.
    pub open spec fn stripped(self) -> MsgView {
        MsgView {
            data: self.data,
            sender: self.sender,
            dest_convo_id: Seq::<char>::empty(),
            sender_sid: Seq::<char>::empty(),
        }
    }
}

impl EncryptedMessage {
    /// Clears the transient destination id and session id, keeping payload
    /// and sender: the form in which a message is persisted and forwarded.
    pub fn stripped(&self) -> (p: EncryptedMessage)
        ensures
            p@ == self@.stripped(),
    {
        EncryptedMessage {
            data: self.data.clone(),
            sender: self.sender.clone(),
            dest_convo_id: String::new(),
            sender_sid: String::new(),
        }
    }

    /// Clones the message, field for field.
    pub fn duplicate(&self) -> (r: EncryptedMessage)
        ensures
            r@ == self@,
    {
        EncryptedMessage {
            data: self.data.clone(),
            sender: self.sender.clone(),
            dest_convo_id: self.dest_convo_id.clone(),
            sender_sid: self.sender_sid.clone(),
        }
    }
}

/// A named conversation: its member usernames, one wrapped key per member,
/// and the append-only encrypted message log.
pub struct Conversation {
    pub id: String,
    pub users: Vec<String>,
    pub keys: Vec<UserKey>,
    pub messages: Vec<EncryptedMessage>,
}

/// The mathematical value of a [`Conversation`].
#[verifier::ext_equal]
pub struct ConvoView {
    pub id: Seq<char>,
    pub users: Seq<Seq<char>>,
    pub keys: Seq<KeyView>,
    pub messages: Seq<MsgView>,
}

impl View for Conversation {
    type V = ConvoView;

    open spec fn view(&self) -> ConvoView {
        ConvoView {
            id: self.id@,
            users: self.users@.map_values(|s: String| s@),
            keys: self.keys@.map_values(|k: UserKey| k@),
            messages: self.messages@.map_values(|m: EncryptedMessage| m@),
        }
    }
}

/// Whether `name` occurs in `names`.
pub open spec fn seq_contains_name(names: Seq<Seq<char>>, name: Seq<char>) -> bool {
    exists|i: int| 0 <= i < names.len() && names[i] == name
}

/// The predicate "this name is not `target`", used to state removals from
/// name lists.
pub open spec fn name_is_not(target: Seq<char>) -> spec_fn(Seq<char>) -> bool {
    |n: Seq<char>| n != target
}

/// The predicate "this wrapped key is not owned by `target`", used to state
/// removals from key lists.
pub open spec fn owner_is_not(target: Seq<char>) -> spec_fn(KeyView) -> bool {
    |k: KeyView| k.owner != target
}

impl ConvoView {
    /// The conversation invariant: one wrapped-key entry per member, in
    /// member order, and no member listed twice.
    pub open spec fn wf(self) -> bool {
        &&& self.keys.len() == self.users.len()
        &&& forall|i: int| 0 <= i < self.users.len() ==> self.keys[i].owner == #[trigger] self.users[i]
        &&& forall|i: int, j: int| 0 <= i < j < self.users.len() ==> self.users[i] != self.users[j]
    }

    /// Whether the user named `name` is a member.
    pub open spec fn has_member(self, name: Seq<char>) -> bool {
        seq_contains_name(self.users, name)
    }
}

impl Conversation {
    /// Returns whether the user named `name` is a member of this
    /// conversation.
    pub fn has_member(&self, name: &String) -> (r: bool)
        ensures
            r == self@.has_member(name@),
    {
        contains_name(&self.users, name)
    }

    /// Appends `message` to the log in persisted form: the transient fields
    /// are cleared first, so no session id or routing data is ever stored.
    pub fn send(&mut self, message: EncryptedMessage)
        ensures
            final(self)@.id == old(self)@.id,
            final(self)@.users == old(self)@.users,
            final(self)@.keys == old(self)@.keys,
            final(self)@.messages == old(self)@.messages.push(message@.stripped()),
    {
        let stripped = message.stripped();
        self.messages.push(stripped);
        proof {
            assert(final(self)@.messages =~= old(self)@.messages.push(message@.stripped()));
        }
    }

    /// Clones the conversation, member for member, key for key, message for
    /// message.
    pub fn duplicate(&self) -> (r: Conversation)
        ensures
            r@ == self@,
    {
        let r = Conversation {
            id: self.id.clone(),
            users: clone_names(&self.users),
            keys: clone_keys(&self.keys),
            messages: clone_messages(&self.messages),
        };
        proof {
            assert(r@ =~= self@);
        }
        r
    }

    /// Removes the member named `target`, together with that member's
    /// wrapped-key entry. The id and the message log are untouched, so the
    /// history stays readable by the remaining members.
    pub fn shrink(&self, target: &String) -> (r: Conversation)
        ensures
            r@.id == self@.id,
            r@.messages == self@.messages,
            r@.users == self@.users.filter(name_is_not(target@)),
            r@.keys == self@.keys.filter(owner_is_not(target@)),
            self@.wf() ==> r@.wf(),
    {
        let users = remove_name(&self.users, target);
        let keys = remove_keys_of(&self.keys, target);
        let r = Conversation {
            id: self.id.clone(),
            users,
            keys,
            messages: clone_messages(&self.messages),
        };
        proof {
            if self@.wf() {
                lemma_shrink_wf(self@, target@);
            }
        }
        r
    }
}

/// Every element of a filtered sequence occurs in the original sequence.
proof fn lemma_filter_mem<A>(s: Seq<A>, pred: spec_fn(A) -> bool, i: int)
    requires
        0 <= i < s.filter(pred).len(),
    ensures
        (exists|j: int| 0 <= j < s.len() && s[j] == s.filter(pred)[i]),
    decreases s.len(),
{
    reveal(Seq::filter);
    if s.len() > 0 {
        if pred(s.last()) && i == s.filter(pred).len() - 1 {
            assert(s[s.len() - 1] == s.filter(pred)[i]);
        } else {
            lemma_filter_mem(s.drop_last(), pred, i);
            let j = choose|j: int|
                0 <= j < s.drop_last().len() && s.drop_last()[j] == s.drop_last().filter(pred)[i];
            assert(s[j] == s.filter(pred)[i]);
        }
    }
}

/// Filtering a sequence of pairwise-distinct names keeps them pairwise
/// distinct.
proof fn lemma_filter_distinct(s: Seq<Seq<char>>, pred: spec_fn(Seq<char>) -> bool)
    requires
        forall|i: int, j: int| 0 <= i < j < s.len() ==> s[i] != s[j],
    ensures
        forall|i: int, j: int|
            0 <= i < j < s.filter(pred).len() ==> s.filter(pred)[i] != s.filter(pred)[j],
    decreases s.len(),
{
    reveal(Seq::filter);
    if s.len() > 0 {
        let su = s.drop_last();
        lemma_filter_distinct(su, pred);
        let f = s.filter(pred);
        let fu = su.filter(pred);
        assert forall|i: int, j: int| 0 <= i < j < f.len() implies f[i] != f[j] by {
            if pred(s.last()) && j == f.len() - 1 {
                lemma_filter_mem(su, pred, i);
                let k = choose|k: int| 0 <= k < su.len() && su[k] == fu[i];
                assert(s[k] == f[i]);
                assert(s[k] != s.last());
            } else {
                assert(f[i] == fu[i] && f[j] == fu[j]);
            }
        }
    }
}

/// Filtering one member (and that member's key) out of a well-formed
/// conversation view leaves the member list and the key list aligned.
proof fn lemma_shrink_aligned(
    users: Seq<Seq<char>>,
    keys: Seq<KeyView>,
    target: Seq<char>,
)
    requires
        keys.len() == users.len(),
        forall|i: int| 0 <= i < users.len() ==> keys[i].owner == #[trigger] users[i],
    ensures
        keys.filter(owner_is_not(target)).len() == users.filter(name_is_not(target)).len(),
        forall|i: int|
            0 <= i < users.filter(name_is_not(target)).len() ==> keys.filter(
                owner_is_not(target),
            )[i].owner == #[trigger] users.filter(name_is_not(target))[i],
    decreases users.len(),
{
    reveal(Seq::filter);
    if users.len() > 0 {
        let uu = users.drop_last();
        let ku = keys.drop_last();
        lemma_shrink_aligned(uu, ku, target);
        assert(keys.last().owner == users.last());
        let fu = uu.filter(name_is_not(target));
        let fk = ku.filter(owner_is_not(target));
        assert forall|i: int|
            0 <= i < users.filter(name_is_not(target)).len() implies keys.filter(
            owner_is_not(target),
        )[i].owner == #[trigger] users.filter(name_is_not(target))[i] by {
            if i < fu.len() {
                assert(fk[i].owner == fu[i]);
            }
        }
    }
}

/// Filtering one member (and that member's key) out of a well-formed
/// conversation view leaves a well-formed conversation view.
proof fn lemma_shrink_wf(c: ConvoView, target: Seq<char>)
    requires
        c.wf(),
    ensures
        (ConvoView {
            id: c.id,
            users: c.users.filter(name_is_not(target)),
            keys: c.keys.filter(owner_is_not(target)),
            messages: c.messages,
        }).wf(),
{
    lemma_shrink_aligned(c.users, c.keys, target);
    lemma_filter_distinct(c.users, name_is_not(target));
}

/// Removes every occurrence of `target` from `list`, keeping the order of
/// the remaining entries.
pub fn remove_name(list: &Vec<String>, target: &String) -> (r: Vec<String>)
    ensures
        r@.map_values(|s: String| s@) == list@.map_values(|s: String| s@).filter(
            name_is_not(target@),
        ),
{
    let mut r: Vec<String> = Vec::new();
    let ghost names = list@.map_values(|s: String| s@);
    let mut i: usize = 0;
    while i < list.len()
        invariant
            i <= list@.len(),
            names == list@.map_values(|s: String| s@),
            r@.map_values(|s: String| s@) == names.take(i as int).filter(name_is_not(target@)),
        decreases list@.len() - i,
    {
        let ghost pre = r@.map_values(|s: String| s@);
        let keep = !(list[i] == *target);
        if keep {
            r.push(list[i].clone());
        }
        proof {
            reveal(Seq::filter);
            assert(names.take(i as int + 1).drop_last() =~= names.take(i as int));
            assert(names.take(i as int + 1).last() == names[i as int]);
            if keep {
                assert(r@.map_values(|s: String| s@) =~= pre.push(names[i as int]));
            }
        }
        i = i + 1;
    }
    proof {
        assert(names.take(list@.len() as int) =~= names);
    }
    r
}

/// Returns whether `name` occurs in `names`.
pub fn contains_name(names: &Vec<String>, name: &String) -> (r: bool)
    ensures
        r == seq_contains_name(names@.map_values(|s: String| s@), name@),
{
    let ghost views = names@.map_values(|s: String| s@);
    let mut i: usize = 0;
    while i < names.len()
        invariant
            i <= names@.len(),
            views == names@.map_values(|s: String| s@),
            forall|j: int| 0 <= j < i ==> views[j] != name@,
        decreases names@.len() - i,
    {
        if names[i] == *name {
            proof {
                assert(views[i as int] == name@);
            }
            return true;
        }
        i = i + 1;
    }
    false
}

/// Removes every wrapped-key entry owned by `target`, keeping the order and
/// the bytes of the rest.
fn remove_keys_of(keys: &Vec<UserKey>, target: &String) -> (r: Vec<UserKey>)
    ensures
        r@.map_values(|k: UserKey| k@) == keys@.map_values(|k: UserKey| k@).filter(
            owner_is_not(target@),
        ),
{
    let ghost views = keys@.map_values(|k: UserKey| k@);
    let mut r: Vec<UserKey> = Vec::new();
    let mut i: usize = 0;
    while i < keys.len()
        invariant
            i <= keys@.len(),
            views == keys@.map_values(|k: UserKey| k@),
            r@.map_values(|k: UserKey| k@) == views.take(i as int).filter(
                owner_is_not(target@),
            ),
        decreases keys@.len() - i,
    {
        let ghost pre = r@.map_values(|k: UserKey| k@);
        let keep = !(keys[i].owner == *target);
        if keep {
            r.push(UserKey { owner: keys[i].owner.clone(), key: keys[i].key.clone() });
        }
        proof {
            reveal(Seq::filter);
            assert(views.take(i as int + 1).drop_last() =~= views.take(i as int));
            assert(views.take(i as int + 1).last() == views[i as int]);
            if keep {
                assert(r@.map_values(|k: UserKey| k@) =~= pre.push(views[i as int]));
            }
        }
        i = i + 1;
    }
    proof {
        assert(views.take(keys@.len() as int) =~= views);
    }
    r
}

/// `names` with later repetitions removed: the first occurrence of each
/// name survives, in order.
pub open spec fn dedup_names(s: Seq<Seq<char>>) -> Seq<Seq<char>>
    decreases s.len(),
{
    if s.len() == 0 {
        Seq::empty()
    } else if seq_contains_name(s.drop_last(), s.last()) {
        dedup_names(s.drop_last())
    } else {
        dedup_names(s.drop_last()).push(s.last())
    }
}

/// Removing repetitions keeps exactly the names that were there.
pub proof fn lemma_dedup_contains(s: Seq<Seq<char>>, x: Seq<char>)
    ensures
        seq_contains_name(dedup_names(s), x) <==> seq_contains_name(s, x),
    decreases s.len(),
{
    if s.len() > 0 {
        let su = s.drop_last();
        lemma_dedup_contains(su, x);
        assert(forall|i: int| 0 <= i < su.len() ==> su[i] == s[i]);
        if seq_contains_name(su, x) {
            let w = choose|i: int| 0 <= i < su.len() && su[i] == x;
            assert(s[w] == x);
        }
        if seq_contains_name(s, x) {
            let w = choose|i: int| 0 <= i < s.len() && s[i] == x;
            if w < s.len() - 1 {
                assert(su[w] == x);
            }
        }
        if seq_contains_name(dedup_names(su), x) && !seq_contains_name(su, s.last()) {
            let d = dedup_names(su).push(s.last());
            let w = choose|i: int|
                0 <= i < dedup_names(su).len() && dedup_names(su)[i] == x;
            assert(d[w] == x);
        }
        if !seq_contains_name(su, s.last()) && s.last() == x {
            let d = dedup_names(su).push(s.last());
            assert(d[d.len() - 1] == x);
        }
        if seq_contains_name(dedup_names(s), x) && !seq_contains_name(su, s.last()) {
            let d = dedup_names(su).push(s.last());
            let w = choose|i: int| 0 <= i < d.len() && d[i] == x;
            if w < d.len() - 1 {
                assert(dedup_names(su)[w] == x);
            } else {
                assert(s[s.len() - 1] == x);
            }
        }
    }
}

/// After removing repetitions the names are pairwise distinct.
pub proof fn lemma_dedup_distinct(s: Seq<Seq<char>>)
    ensures
        forall|i: int, j: int|
            0 <= i < j < dedup_names(s).len() ==> dedup_names(s)[i] != dedup_names(s)[j],
    decreases s.len(),
{
    if s.len() > 0 {
        let su = s.drop_last();
        lemma_dedup_distinct(su);
        if !seq_contains_name(su, s.last()) {
            let d = dedup_names(s);
            let du = dedup_names(su);
            assert forall|i: int, j: int| 0 <= i < j < d.len() implies d[i] != d[j] by {
                if j == d.len() - 1 {
                    assert(seq_contains_name(du, d[i]));
                    lemma_dedup_contains(su, d[i]);
                    if d[i] == s.last() {
                        assert(seq_contains_name(su, s.last()));
                    }
                } else {
                    assert(du[i] != du[j]);
                }
            }
        }
    }
}

/// Removes later repetitions from `names`: the first occurrence of each
/// name survives, in order.
pub fn dedup_list(names: &Vec<String>) -> (r: Vec<String>)
    ensures
        r@.map_values(|s: String| s@) == dedup_names(names@.map_values(|s: String| s@)),
{
    let ghost views = names@.map_values(|s: String| s@);
    let mut r: Vec<String> = Vec::new();
    let mut i: usize = 0;
    while i < names.len()
        invariant
            i <= names@.len(),
            views == names@.map_values(|s: String| s@),
            r@.map_values(|s: String| s@) == dedup_names(views.take(i as int)),
        decreases names@.len() - i,
    {
        let ghost pre = r@.map_values(|s: String| s@);
        let seen = contains_name(&r, &names[i]);
        proof {
            lemma_dedup_contains(views.take(i as int), views[i as int]);
            assert(views.take(i as int + 1).drop_last() =~= views.take(i as int));
            assert(views.take(i as int + 1).last() == views[i as int]);
        }
        if !seen {
            r.push(names[i].clone());
            proof {
                assert(r@.map_values(|s: String| s@) =~= pre.push(views[i as int]));
            }
        }
        i = i + 1;
    }
    proof {
        assert(views.take(names@.len() as int) =~= views);
    }
    r
}

/// Returns whether every name in `names` occurs in `set`.
pub fn all_contained(names: &Vec<String>, set: &Vec<String>) -> (r: bool)
    ensures
        r == (forall|i: int|
            0 <= i < names@.len() ==> seq_contains_name(
                set@.map_values(|s: String| s@),
                #[trigger] names@[i]@,
            )),
{
    let mut i: usize = 0;
    while i < names.len()
        invariant
            i <= names@.len(),
            forall|j: int|
                0 <= j < i ==> seq_contains_name(
                    set@.map_values(|s: String| s@),
                    #[trigger] names@[j]@,
                ),
        decreases names@.len() - i,
    {
        let present = contains_name(set, &names[i]);
        proof {
            assert(names@.map_values(|s: String| s@)[i as int] == names@[i as int]@);
        }
        if !present {
            return false;
        }
        i = i + 1;
    }
    true
}

/// Clones a list of names entry by entry.
pub fn clone_names(names: &Vec<String>) -> (r: Vec<String>)
    ensures
        r@.map_values(|s: String| s@) == names@.map_values(|s: String| s@),
{
    let ghost views = names@.map_values(|s: String| s@);
    let mut r: Vec<String> = Vec::new();
    let mut i: usize = 0;
    while i < names.len()
        invariant
            i <= names@.len(),
            views == names@.map_values(|s: String| s@),
            r@.map_values(|s: String| s@) == views.take(i as int),
        decreases names@.len() - i,
    {
        let ghost pre = r@.map_values(|s: String| s@);
        r.push(names[i].clone());
        proof {
            assert(r@.map_values(|s: String| s@) =~= pre.push(views[i as int]));
            assert(views.take(i as int + 1) =~= pre.push(views[i as int]));
        }
        i = i + 1;
    }
    proof {
        assert(views.take(names@.len() as int) =~= views);
    }
    r
}

/// Clones a list of wrapped keys entry by entry.
fn clone_keys(keys: &Vec<UserKey>) -> (r: Vec<UserKey>)
    ensures
        r@.map_values(|k: UserKey| k@) == keys@.map_values(|k: UserKey| k@),
{
    let ghost views = keys@.map_values(|k: UserKey| k@);
    let mut r: Vec<UserKey> = Vec::new();
    let mut i: usize = 0;
    while i < keys.len()
        invariant
            i <= keys@.len(),
            views == keys@.map_values(|k: UserKey| k@),
            r@.map_values(|k: UserKey| k@) == views.take(i as int),
        decreases keys@.len() - i,
    {
        let ghost pre = r@.map_values(|k: UserKey| k@);
        r.push(UserKey { owner: keys[i].owner.clone(), key: keys[i].key.clone() });
        proof {
            assert(r@.map_values(|k: UserKey| k@) =~= pre.push(views[i as int]));
            assert(views.take(i as int + 1) =~= pre.push(views[i as int]));
        }
        i = i + 1;
    }
    proof {
        assert(views.take(keys@.len() as int) =~= views);
    }
    r
}

/// Clones a message log entry by entry.
fn clone_messages(messages: &Vec<EncryptedMessage>) -> (r: Vec<EncryptedMessage>)
    ensures
        r@.map_values(|m: EncryptedMessage| m@) == messages@.map_values(
            |m: EncryptedMessage| m@,
        ),
{
    let ghost views = messages@.map_values(|m: EncryptedMessage| m@);
    let mut r: Vec<EncryptedMessage> = Vec::new();
    let mut i: usize = 0;
    while i < messages.len()
        invariant
            i <= messages@.len(),
            views == messages@.map_values(|m: EncryptedMessage| m@),
            r@.map_values(|m: EncryptedMessage| m@) == views.take(i as int),
        decreases messages@.len() - i,
    {
        let ghost pre = r@.map_values(|m: EncryptedMessage| m@);
        let m = &messages[i];
        r.push(m.duplicate());
        proof {
            assert(r@.map_values(|m: EncryptedMessage| m@) =~= pre.push(views[i as int]));
            assert(views.take(i as int + 1) =~= pre.push(views[i as int]));
        }
        i = i + 1;
    }
    proof {
        assert(views.take(messages@.len() as int) =~= views);
    }
    r
}

/// `a` with `name` appended to its friend list, all else unchanged.
pub open spec fn with_friend(a: AccountView, name: Seq<char>) -> AccountView {
    AccountView { friends: a.friends.push(name), ..a }
}

/// `a` with every occurrence of `name` removed from its friend list, all
/// else unchanged.
pub open spec fn without_friend(a: AccountView, name: Seq<char>) -> AccountView {
    AccountView { friends: a.friends.filter(name_is_not(name)), ..a }
}

/// The predicate "both `r` and `t` are members of this conversation".
pub open spec fn involves_both(r: Seq<char>, t: Seq<char>) -> spec_fn(ConvoView) -> bool {
    |c: ConvoView| c.has_member(r) && c.has_member(t)
}

/// The function that removes member `t` (and `t`'s wrapped key) from a
/// conversation view, keeping id and messages.
pub open spec fn shrunk_view(t: Seq<char>) -> spec_fn(ConvoView) -> ConvoView {
    |c: ConvoView|
        ConvoView {
            id: c.id,
            users: c.users.filter(name_is_not(t)),
            keys: c.keys.filter(owner_is_not(t)),
            messages: c.messages,
        }
}

impl Account {
    /// This account with `name` appended to its friend list.
    pub fn befriend(&self, name: &String) -> (r: Account)
        ensures
            r@ == with_friend(self@, name@),
    {
        let mut r = self.duplicate();
        r.friends.push(name.clone());
        proof {
            assert(r@.friends =~= self@.friends.push(name@));
            assert(r@ =~= with_friend(self@, name@));
        }
        r
    }

    /// This account with every occurrence of `name` removed from its friend
    /// list.
    pub fn unfriend(&self, name: &String) -> (r: Account)
        ensures
            r@ == without_friend(self@, name@),
    {
        let r = Account {
            username: self.username.clone(),
            hash: self.hash.clone(),
            public_key: self.public_key.clone(),
            priv_key_enc: self.priv_key_enc.clone(),
            friends: remove_name(&self.friends, name),
            session_id: self.session_id.clone(),
        };
        proof {
            assert(r@ =~= without_friend(self@, name@));
        }
        r
    }
}

/// Returns whether the names are pairwise distinct.
pub fn names_distinct(names: &Vec<String>) -> (r: bool)
    ensures
        r == (forall|i: int, j: int| 0 <= i < j < names@.len() ==> names@[i]@ != names@[j]@),
{
    let mut i: usize = 0;
    while i < names.len()
        invariant
            i <= names@.len(),
            forall|a: int, b: int| 0 <= a < b < i ==> names@[a]@ != names@[b]@,
        decreases names@.len() - i,
    {
        let mut j: usize = 0;
        while j < i
            invariant
                j <= i < names@.len(),
                forall|a: int, b: int| 0 <= a < b < i ==> names@[a]@ != names@[b]@,
                forall|a: int| 0 <= a < j ==> names@[a]@ != names@[i as int]@,
            decreases i - j,
        {
            if names[j] == names[i] {
                return false;
            }
            j = j + 1;
        }
        i = i + 1;
    }
    true
}

/// Clones a list of conversations entry by entry.
pub fn clone_convos(convos: &Vec<Conversation>) -> (r: Vec<Conversation>)
    ensures
        r@.map_values(|c: Conversation| c@) == convos@.map_values(|c: Conversation| c@),
{
    let ghost views = convos@.map_values(|c: Conversation| c@);
    let mut r: Vec<Conversation> = Vec::new();
    let mut i: usize = 0;
    while i < convos.len()
        invariant
            i <= convos@.len(),
            views == convos@.map_values(|c: Conversation| c@),
            r@.map_values(|c: Conversation| c@) == views.take(i as int),
        decreases convos@.len() - i,
    {
        let ghost pre = r@.map_values(|c: Conversation| c@);
        r.push(convos[i].duplicate());
        proof {
            assert(r@.map_values(|c: Conversation| c@) =~= pre.push(views[i as int]));
            assert(views.take(i as int + 1) =~= pre.push(views[i as int]));
        }
        i = i + 1;
    }
    proof {
        assert(views.take(convos@.len() as int) =~= views);
    }
    r
}

/// The closed set of actions a wire packet can carry. `ReceiveMessage`,
/// `RecieveConversation` and `Info` are server-to-client only and are
/// rejected when a client sends them; `DeleteConversation` is reserved.
pub enum WSAction {
    SendMessage(EncryptedMessage),
    ReceiveMessage(EncryptedMessage),
    CreateConversation(Vec<String>),
    RecieveConversation(Conversation),
    DeleteConversation(String),
    AddFriend(String),
    RemoveFriend(String),
    Register(),
    Disconnect(),
    Info(String),
}

/// The wire envelope: who claims to send, under which session, and what
/// action is requested.
pub struct WSPacket {
    pub sender: String,
    pub sid: String,
    pub action: WSAction,
}

/// Whether `p` is attributed to the server itself: sender `API`, session id
/// `0`.
pub open spec fn is_info_sender(p: WSPacket) -> bool {
    &&& p.sender@ == "API"@
    &&& p.sid@ == "0"@
}

/// Whether `p` is a server-originated informational packet.
pub open spec fn is_info_packet(p: WSPacket) -> bool {
    &&& is_info_sender(p)
    &&& p.action is Info
}

/// Whether `p` is a server-originated informational packet whose text is
/// `text`.
pub open spec fn is_info_packet_saying(p: WSPacket, text: Seq<char>) -> bool {
    &&& is_info_packet(p)
    &&& p.action matches WSAction::Info(t) && t@ == text
}

/// Builds the server-originated informational packet the protocol uses for
/// every error or status report: sender `API`, session id `0`.
pub fn info_packet(text: String) -> (p: WSPacket)
    ensures
        is_info_packet_saying(p, text@),
{
    WSPacket {
        sender: String::from_str("API"),
        sid: String::from_str("0"),
        action: WSAction::Info(text),
    }
}

} // verus!
