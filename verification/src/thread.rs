use vstd::prelude::*;
use vstd::std_specs::cmp::PartialEqSpec;

verus! {

/// Something that a list can find again by its identifier.
pub trait Entity<ID> where ID: PartialEq {
    /// The identifier, as contracts speak of it.
    spec fn spec_id(&self) -> ID;

    fn id(&self) -> (id: &ID)
        ensures
            *id == self.spec_id(),
    ;
}

/// The identifier of a thread.
#[derive(Debug, PartialOrd)]
pub struct ThreadId(u64);

/// An identifier is seen as its number.
impl View for ThreadId {
    type V = u64;

    closed spec fn view(&self) -> u64 {
        self.0
    }
}

impl Clone for ThreadId {
    fn clone(&self) -> (copy: Self)
        ensures
            copy == *self,
    {
        ThreadId(self.0)
    }
}

impl PartialEq for ThreadId {
    fn eq(&self, other: &Self) -> (equal: bool) {
        self.0 == other.0
    }
}

impl vstd::std_specs::cmp::PartialEqSpecImpl for ThreadId {
    open spec fn obeys_eq_spec() -> bool {
        true
    }

    open spec fn eq_spec(&self, other: &Self) -> bool {
        self@ == other@
    }
}

impl ThreadId {
    pub fn new(value: u64) -> (id: Self)
        ensures
            id@ == value,
    {
        Self(value)
    }

    /// Two identifiers with the same number are the same identifier.
    pub proof fn lemma_same_number(self, other: Self)
        requires
            self@ == other@,
        ensures
            self == other,
    {
    }
}

/// The identifier of a member.
#[derive(Debug, PartialOrd)]
pub struct MemberId(u64);

/// An identifier is seen as its number.
impl View for MemberId {
    type V = u64;

    closed spec fn view(&self) -> u64 {
        self.0
    }
}

impl Clone for MemberId {
    fn clone(&self) -> (copy: Self)
        ensures
            copy == *self,
    {
        MemberId(self.0)
    }
}

impl PartialEq for MemberId {
    fn eq(&self, other: &Self) -> (equal: bool) {
        self.0 == other.0
    }
}

impl vstd::std_specs::cmp::PartialEqSpecImpl for MemberId {
    open spec fn obeys_eq_spec() -> bool {
        true
    }

    open spec fn eq_spec(&self, other: &Self) -> bool {
        self@ == other@
    }
}

impl MemberId {
    pub fn new(value: u64) -> (id: Self)
        ensures
            id@ == value,
    {
        Self(value)
    }

    /// Two identifiers with the same number are the same identifier.
    pub proof fn lemma_same_number(self, other: Self)
        requires
            self@ == other@,
        ensures
            self == other,
    {
    }
}

/// The identifier of a message.
#[derive(Debug, PartialOrd)]
pub struct MessageId(u64);

/// An identifier is seen as its number.
impl View for MessageId {
    type V = u64;

    closed spec fn view(&self) -> u64 {
        self.0
    }
}

impl Clone for MessageId {
    fn clone(&self) -> (copy: Self)
        ensures
            copy == *self,
    {
        MessageId(self.0)
    }
}

impl PartialEq for MessageId {
    fn eq(&self, other: &Self) -> (equal: bool) {
        self.0 == other.0
    }
}

impl vstd::std_specs::cmp::PartialEqSpecImpl for MessageId {
    open spec fn obeys_eq_spec() -> bool {
        true
    }

    open spec fn eq_spec(&self, other: &Self) -> bool {
        self@ == other@
    }
}

impl MessageId {
    pub fn new(value: u64) -> (id: Self)
        ensures
            id@ == value,
    {
        Self(value)
    }

    /// Two identifiers with the same number are the same identifier.
    pub proof fn lemma_same_number(self, other: Self)
        requires
            self@ == other@,
        ensures
            self == other,
    {
    }
}

/// The name of a member.
#[derive(Debug, PartialOrd, PartialEq)]
pub struct MemberName(String);

/// A name is seen as its characters.
impl View for MemberName {
    type V = Seq<char>;

    closed spec fn view(&self) -> Seq<char> {
        self.0@
    }
}

impl Clone for MemberName {
    fn clone(&self) -> (copy: Self)
        ensures
            copy == *self,
    {
        MemberName(self.0.clone())
    }
}

impl MemberName {
    pub fn new(value: String) -> (name: Self)
        ensures
            name@ == value@,
    {
        Self(value)
    }
}

/// Someone who may send messages to a thread.
#[derive(Debug)]
pub struct Member {
    id: MemberId,
    name: MemberName,
}

impl Clone for Member {
    fn clone(&self) -> (copy: Self)
        ensures
            copy == *self,
    {
        Member { id: self.id.clone(), name: self.name.clone() }
    }
}

impl Member {
    /// The name of the member.
    pub closed spec fn spec_name(&self) -> MemberName {
        self.name
    }

    pub fn new(id: MemberId, name: MemberName) -> (member: Self)
        ensures
            member.spec_id() == id,
            member.spec_name() == name,
    {
        Self { id, name }
    }
}

impl Entity<MemberId> for Member {
    closed spec fn spec_id(&self) -> MemberId {
        self.id
    }

    fn id(&self) -> (id: &MemberId) {
        &self.id
    }
}

/// The text of a message.
#[derive(Debug)]
pub struct MessageText(String);

/// A text is seen as its characters.
impl View for MessageText {
    type V = Seq<char>;

    closed spec fn view(&self) -> Seq<char> {
        self.0@
    }
}

impl Clone for MessageText {
    fn clone(&self) -> (copy: Self)
        ensures
            copy == *self,
    {
        MessageText(self.0.clone())
    }
}

impl MessageText {
    pub fn new(value: String) -> (text: Self)
        ensures
            text@ == value@,
    {
        Self(value)
    }
}

/// A text that a member sent.
#[derive(Debug)]
pub struct Message {
    id: MessageId,
    sender_id: MemberId,
    text: MessageText,
}

impl Clone for Message {
    fn clone(&self) -> (copy: Self)
        ensures
            copy == *self,
    {
        Message { id: self.id.clone(), sender_id: self.sender_id.clone(), text: self.text.clone() }
    }
}

impl Message {
    /// The identifier of the member who sent the message.
    pub closed spec fn spec_sender_id(&self) -> MemberId {
        self.sender_id
    }

    /// The text of the message.
    pub closed spec fn spec_text(&self) -> MessageText {
        self.text
    }

    pub fn new(id: MessageId, sender_id: MemberId, text: MessageText) -> (message: Self)
        ensures
            message.spec_id() == id,
            message.spec_sender_id() == sender_id,
            message.spec_text() == text,
    {
        Self { id, sender_id, text }
    }
}

impl Entity<MessageId> for Message {
    closed spec fn spec_id(&self) -> MessageId {
        self.id
    }

    fn id(&self) -> (id: &MessageId) {
        &self.id
    }
}

/// Why a thread did not take a message.
#[derive(Debug, PartialEq)]
pub enum ThreadError {
    /// The sender of the message, `member_id`, is no member of the thread.
    InvalidMemberId { member_id: MemberId },
}

/// Whether one of `members` has the identifier `id`.
pub open spec fn has_member(members: Seq<Member>, id: MemberId) -> bool {
    exists|i: int| 0 <= i < members.len() && (#[trigger] members[i]).spec_id() == id
}

/// Whether one of `ids` equals `id`.
pub open spec fn listed<ID: PartialEq>(ids: Seq<ID>, id: ID) -> bool {
    exists|j: int| 0 <= j < ids.len() && (#[trigger] ids[j]).eq_spec(&id)
}

/// The positions of those of `items` whose identifier is listed in `ids`, in
/// ascending order.
pub open spec fn positions<ID: PartialEq, M: Entity<ID>>(items: Seq<M>, ids: Seq<ID>) -> Seq<int>
    decreases items.len(),
{
    if items.len() == 0 {
        Seq::empty()
    } else {
        let earlier = positions(items.drop_last(), ids);
        if listed(ids, items.last().spec_id()) {
            earlier.push(items.len() - 1)
        } else {
            earlier
        }
    }
}

/// `positions` lists, in ascending order and each once, exactly the
/// positions of the items whose identifier is listed.
pub proof fn lemma_positions<ID: PartialEq, M: Entity<ID>>(items: Seq<M>, ids: Seq<ID>)
    ensures
        forall|k: int|
            0 <= k < positions(items, ids).len() ==> 0 <= #[trigger] positions(items, ids)[k]
                < items.len() && listed(ids, items[positions(items, ids)[k]].spec_id()),
        forall|j: int, k: int|
            0 <= j < k < positions(items, ids).len() ==> positions(items, ids)[j] < positions(
                items,
                ids,
            )[k],
        forall|i: int|
            0 <= i < items.len() && listed(ids, (#[trigger] items[i]).spec_id()) ==> positions(
                items,
                ids,
            ).contains(i),
    decreases items.len(),
{
    if items.len() > 0 {
        let front = items.drop_last();
        let earlier = positions(front, ids);
        let all = positions(items, ids);
        lemma_positions(front, ids);
        assert forall|i: int|
            0 <= i < items.len() && listed(
                ids,
                (#[trigger] items[i]).spec_id(),
            ) implies all.contains(i) by {
            if i < items.len() - 1 {
                assert(front[i] == items[i]);
                let k = choose|k: int| 0 <= k < earlier.len() && earlier[k] == i;
                assert(all[k] == i);
            } else {
                assert(all[all.len() - 1] == i);
            }
        }
        assert forall|k: int| 0 <= k < all.len() implies 0 <= #[trigger] all[k] < items.len()
            && listed(ids, items[all[k]].spec_id()) by {
            if k < earlier.len() {
                assert(front[earlier[k]] == items[earlier[k]]);
            }
        }
    }
}

/// The test that an item passes where its identifier is not listed in `ids`.
pub open spec fn unlisted<ID: PartialEq, M: Entity<ID>>(ids: Seq<ID>) -> spec_fn(M) -> bool {
    |item: M| !listed(ids, item.spec_id())
}

/// Whether `indices` holds the numbers of `at`, in the same order.
pub open spec fn same_numbers(indices: Seq<usize>, at: Seq<int>) -> bool {
    indices.len() == at.len() && forall|k: int| 0 <= k < at.len() ==> indices[k] == at[k]
}

fn is_listed<ID: PartialEq>(ids: &[ID], id: &ID) -> (found: bool)
    ensures
        ID::obeys_eq_spec() ==> found == listed(ids@, *id),
{
    let mut j: usize = 0;
    while j < ids.len()
        invariant
            j <= ids.len(),
            ID::obeys_eq_spec() ==> forall|k: int| 0 <= k < j ==> !(#[trigger] ids@[k]).eq_spec(id),
        decreases ids.len() - j,
    {
        if ids[j] == *id {
            return true;
        }
        j += 1;
    }
    false
}

/// Removes the items at the positions `indices`, which are the positions
/// of the items whose identifier is listed in `ids`, from the last position
/// down, so that no removal moves an item that is still to be removed.
fn remove_listed<ID: PartialEq, M: Entity<ID>>(
    items: &mut Vec<M>,
    indices: &Vec<usize>,
    Ghost(ids): Ghost<Seq<ID>>,
)
    requires
        same_numbers(indices@, positions(old(items)@, ids)),
    ensures
        final(items)@ == old(items)@.filter(unlisted::<ID, M>(ids)),
{
    let ghost all = items@;
    let ghost keep = unlisted::<ID, M>(ids);
    let mut i: usize = items.len();
    let mut k: usize = indices.len();
    proof {
        reveal(Seq::filter);
        assert(all.subrange(0, i as int) =~= all);
        assert(indices@.subrange(0, k as int) =~= indices@);
        assert(all.subrange(i as int, all.len() as int).filter(keep) =~= Seq::<M>::empty());
        assert(items@ =~= all.subrange(0, i as int) + Seq::<M>::empty());
    }
    while i > 0
        invariant
            i <= all.len(),
            k <= indices.len(),
            keep == unlisted::<ID, M>(ids),
            items@ == all.subrange(0, i as int) + all.subrange(i as int, all.len() as int).filter(
                keep,
            ),
            same_numbers(indices@.subrange(0, k as int), positions(all.subrange(0, i as int), ids)),
        decreases i,
    {
        let ghost front = all.subrange(0, i as int);
        let ghost rest = all.subrange(i as int, all.len() as int);
        let ghost last = all[i - 1];
        let ghost earlier = positions(front.drop_last(), ids);
        proof {
            assert(front.drop_last() =~= all.subrange(0, i - 1));
            assert(front.last() == last);
            lemma_positions(front.drop_last(), ids);
            assert(positions(front, ids) == if listed(ids, last.spec_id()) {
                earlier.push(i - 1)
            } else {
                earlier
            });
            if k > 0 {
                assert(indices@.subrange(0, k as int)[k - 1] == indices@[k - 1]);
                if !listed(ids, last.spec_id()) {
                    assert(0 <= earlier[k - 1] < i - 1);
                }
            }
            assert(seq![last].filter(keep) =~= if keep(last) {
                seq![last]
            } else {
                Seq::<M>::empty()
            }) by {
                reveal_with_fuel(Seq::filter, 2);
                assert(seq![last].drop_last() =~= Seq::<M>::empty());
            }
            assert(all.subrange(i - 1, all.len() as int) =~= seq![last] + rest);
            Seq::filter_distributes_over_add(seq![last], rest, keep);
        }
        if k > 0 && indices[k - 1] == i - 1 {
            items.remove(i - 1);
            k -= 1;
            proof {
                assert(listed(ids, last.spec_id()));
                assert(items@ =~= all.subrange(0, i - 1) + rest.filter(keep));
                assert(indices@.subrange(0, k as int) =~= indices@.subrange(
                    0,
                    k + 1,
                ).drop_last());
            }
        } else {
            proof {
                assert(!listed(ids, last.spec_id()));
                assert(items@ =~= all.subrange(0, i - 1) + (seq![last] + rest.filter(keep)));
            }
        }
        i -= 1;
    }
    proof {
        assert(all.subrange(0, 0) =~= Seq::<M>::empty());
        assert(all.subrange(0, all.len() as int) =~= all);
        assert(items@ =~= all.filter(keep));
    }
}

/// A conversation: its members, and the messages they sent, both in the
/// order in which they were added.
#[derive(Debug)]
pub struct Thread {
    id: ThreadId,
    members: Vec<Member>,
    messages: Vec<Message>,
}

fn copy_of<M: Clone>(items: &[M]) -> (copies: Vec<M>)
    ensures
        copies@.len() == items@.len(),
        forall|i: int| 0 <= i < items@.len() ==> cloned(items@[i], #[trigger] copies@[i]),
{
    let mut copies: Vec<M> = Vec::new();
    copies.extend_from_slice(items);
    copies
}

impl Clone for Thread {
    fn clone(&self) -> (copy: Self)
        ensures
            copy.spec_id() == self.spec_id(),
            copy.spec_members() == self.spec_members(),
            copy.spec_messages() == self.spec_messages(),
    {
        let members = copy_of(self.members.as_slice());
        let messages = copy_of(self.messages.as_slice());
        assert(members@ =~= self.members@);
        assert(messages@ =~= self.messages@);
        Thread { id: self.id.clone(), members, messages }
    }
}

impl Thread {
    /// The identifier of the thread.
    pub closed spec fn spec_id(&self) -> ThreadId {
        self.id
    }

    /// The members, in the order in which they were added.
    pub closed spec fn spec_members(&self) -> Seq<Member> {
        self.members@
    }

    /// The messages, in the order in which they were added.
    pub closed spec fn spec_messages(&self) -> Seq<Message> {
        self.messages@
    }

    /// A thread with copies of the given members and messages.
    pub fn new(id: ThreadId, members: &[Member], messages: &[Message]) -> (thread: Self)
        ensures
            thread.spec_id() == id,
            thread.spec_members() == members@,
            thread.spec_messages() == messages@,
    {
        let members_copy = copy_of(members);
        let messages_copy = copy_of(messages);
        assert(members_copy@ =~= members@);
        assert(messages_copy@ =~= messages@);
        Self { id, members: members_copy, messages: messages_copy }
    }

    fn is_member_id(&self, member_id: &MemberId) -> (found: bool)
        ensures
            found == has_member(self.spec_members(), *member_id),
    {
        let mut i: usize = 0;
        while i < self.members.len()
            invariant
                i <= self.members.len(),
                forall|j: int| 0 <= j < i ==> self.members@[j].spec_id() != *member_id,
            decreases self.members.len() - i,
        {
            if self.members[i].id == *member_id {
                return true;
            }
            i += 1;
        }
        false
    }

    /// Adds a message at the end, if its sender is a member of the thread.
    /// Otherwise the thread stays as it is.
    pub fn add_message(&mut self, message: Message) -> (added: Result<(), ThreadError>)
        ensures
            final(self).spec_id() == old(self).spec_id(),
            final(self).spec_members() == old(self).spec_members(),
            match added {
                Ok(_) => {
                    &&& has_member(old(self).spec_members(), message.spec_sender_id())
                    &&& final(self).spec_messages() == old(self).spec_messages().push(message)
                },
                Err(e) => {
                    &&& !has_member(old(self).spec_members(), message.spec_sender_id())
                    &&& e == (ThreadError::InvalidMemberId { member_id: message.spec_sender_id() })
                    &&& final(self).spec_messages() == old(self).spec_messages()
                },
            },
    {
        if !self.is_member_id(&message.sender_id) {
            return Err(ThreadError::InvalidMemberId { member_id: message.sender_id });
        }
        self.messages.push(message);
        Ok(())
    }

    /// Adds copies of the given messages at the end, one after the other,
    /// and stops at the first whose sender is no member of the thread: the
    /// messages before it stay added, it and those after it are left out.
    pub fn add_messages(&mut self, messages: &[Message]) -> (added: Result<(), ThreadError>)
        ensures
            final(self).spec_id() == old(self).spec_id(),
            final(self).spec_members() == old(self).spec_members(),
            match added {
                Ok(_) => {
                    &&& forall|i: int|
                        0 <= i < messages@.len() ==> has_member(
                            old(self).spec_members(),
                            (#[trigger] messages@[i]).spec_sender_id(),
                        )
                    &&& final(self).spec_messages() == old(self).spec_messages() + messages@
                },
                Err(e) => exists|k: int|
                    {
                        &&& 0 <= k < messages@.len()
                        &&& forall|i: int|
                            0 <= i < k ==> has_member(
                                old(self).spec_members(),
                                (#[trigger] messages@[i]).spec_sender_id(),
                            )
                        &&& !has_member(old(self).spec_members(), messages@[k].spec_sender_id())
                        &&& e == (ThreadError::InvalidMemberId {
                            member_id: messages@[k].spec_sender_id(),
                        })
                        &&& final(self).spec_messages() == old(self).spec_messages()
                            + #[trigger] messages@.subrange(0, k)
                    },
            },
    {
        let mut i: usize = 0;
        while i < messages.len()
            invariant
                i <= messages.len(),
                self.spec_id() == old(self).spec_id(),
                self.spec_members() == old(self).spec_members(),
                forall|j: int|
                    0 <= j < i ==> has_member(
                        old(self).spec_members(),
                        (#[trigger] messages@[j]).spec_sender_id(),
                    ),
                self.spec_messages() == old(self).spec_messages() + messages@.subrange(0, i as int),
            decreases messages.len() - i,
        {
            let result = self.add_message(messages[i].clone());
            if result.is_err() {
                return result;
            }
            assert(self.spec_messages() =~= old(self).spec_messages() + messages@.subrange(
                0,
                i + 1,
            ));
            i += 1;
        }
        assert(messages@.subrange(0, i as int) =~= messages@);
        Ok(())
    }

    /// Removes every message whose identifier is listed in `message_ids`.
    /// The other messages stay, in their order. An identifier that no message
    /// has removes nothing.
    pub fn remove_messages(&mut self, message_ids: &[MessageId])
        ensures
            final(self).spec_id() == old(self).spec_id(),
            final(self).spec_members() == old(self).spec_members(),
            final(self).spec_messages() == old(self).spec_messages().filter(
                unlisted::<MessageId, Message>(message_ids@),
            ),
    {
        let indices = Self::convert_to_idx(&self.messages, message_ids);
        remove_listed(&mut self.messages, &indices, Ghost(message_ids@));
    }

    pub fn messages(&self) -> (messages: &[Message])
        ensures
            messages@ == self.spec_messages(),
    {
        self.messages.as_slice()
    }

    /// Adds copies of the given members at the end, in their order.
    pub fn add_members(&mut self, members: &[Member])
        ensures
            final(self).spec_id() == old(self).spec_id(),
            final(self).spec_members() == old(self).spec_members() + members@,
            final(self).spec_messages() == old(self).spec_messages(),
    {
        self.members.extend_from_slice(members);
        assert(self.members@ =~= old(self).members@ + members@);
    }

    /// Removes every member whose identifier is listed in `member_ids`. The
    /// other members stay, in their order. An identifier that no member has
    /// removes nothing.
    pub fn remove_members(&mut self, member_ids: &[MemberId])
        ensures
            final(self).spec_id() == old(self).spec_id(),
            final(self).spec_messages() == old(self).spec_messages(),
            final(self).spec_members() == old(self).spec_members().filter(
                unlisted::<MemberId, Member>(member_ids@),
            ),
    {
        let indices = Self::convert_to_idx(&self.members, member_ids);
        remove_listed(&mut self.members, &indices, Ghost(member_ids@));
    }

    /// The positions of the items whose identifier is listed in `member_ids`,
    /// in ascending order.
    fn convert_to_idx<ID, M>(members: &Vec<M>, member_ids: &[ID]) -> (indices: Vec<usize>) where
        ID: PartialEq,
        M: Entity<ID>,

        ensures
            ID::obeys_eq_spec() ==> same_numbers(indices@, positions(members@, member_ids@)),
    {
        let mut indices: Vec<usize> = Vec::new();
        let mut i: usize = 0;
        while i < members.len()
            invariant
                i <= members.len(),
                ID::obeys_eq_spec() ==> same_numbers(
                    indices@,
                    positions(members@.subrange(0, i as int), member_ids@),
                ),
            decreases members.len() - i,
        {
            proof {
                assert(members@.subrange(0, i + 1).drop_last() =~= members@.subrange(0, i as int));
            }
            if is_listed(member_ids, members[i].id()) {
                indices.push(i);
            }
            i += 1;
        }
        proof {
            assert(members@.subrange(0, i as int) =~= members@);
        }
        indices
    }

    pub fn members(&self) -> (members: &[Member])
        ensures
            members@ == self.spec_members(),
    {
        self.members.as_slice()
    }
}

} // verus!
