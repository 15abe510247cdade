//! What a poll does to the store and what it sends, as functions of the
//! store it starts from and the announcements it is given.

use vstd::prelude::*;
use crate::digest::{change_kind, digestible, fingerprint_of, ChangeKind};
use crate::dispatch::{category_of, ordinary_text, schedule_change_text, Category, MessageText};
use crate::librus::handlers::notices::NoticeText;
use crate::mention::TargetText;

verus! {

/// How an announcement compares with what the store holds for its id; `None`
/// where its content cannot be digested.
pub open spec fn kind_of(stored: Option<Seq<char>>, notice: NoticeText) -> Option<ChangeKind> {
    if digestible(notice.content) {
        Some(change_kind(stored, fingerprint_of(notice.content)))
    } else {
        None
    }
}

/// Whether an announcement is to be stored and dispatched, given what the
/// store holds for its id: it is where it is new or changed.
pub open spec fn is_fresh(stored: Option<Seq<char>>, notice: NoticeText) -> bool {
    match kind_of(stored, notice) {
        Some(kind) => kind.is_fresh(),
        None => false,
    }
}

/// The message for an announcement, by its category.
pub open spec fn message_text(notice: NoticeText, targets: Seq<TargetText>) -> MessageText {
    match category_of(notice.title) {
        Category::Ordinary => ordinary_text(notice),
        Category::ScheduleChange => schedule_change_text(notice, targets),
    }
}

/// What a store holds for an id.
pub open spec fn lookup(store: Map<Seq<char>, Seq<char>>, id: Seq<char>) -> Option<Seq<char>> {
    if store.contains_key(id) {
        Some(store[id])
    } else {
        None
    }
}

/// The store after a poll has dealt with one announcement: with the
/// announcement's fingerprint under its id where the announcement is fresh,
/// else as it was.
pub open spec fn store_after_one(store: Map<Seq<char>, Seq<char>>, notice: NoticeText) -> Map<
    Seq<char>,
    Seq<char>,
> {
    if is_fresh(lookup(store, notice.id), notice) {
        store.insert(notice.id, fingerprint_of(notice.content))
    } else {
        store
    }
}

/// The store after a poll has dealt with the announcements in their order.
pub open spec fn store_after(store: Map<Seq<char>, Seq<char>>, notices: Seq<NoticeText>) -> Map<
    Seq<char>,
    Seq<char>,
>
    decreases notices.len(),
{
    if notices.len() == 0 {
        store
    } else {
        store_after_one(store_after(store, notices.drop_last()), notices.last())
    }
}

/// How a poll that starts from `store` classifies each announcement when it
/// comes to it.
pub open spec fn kinds_after(store: Map<Seq<char>, Seq<char>>, notices: Seq<NoticeText>) -> Seq<
    Option<ChangeKind>,
>
    decreases notices.len(),
{
    if notices.len() == 0 {
        Seq::empty()
    } else {
        kinds_after(store, notices.drop_last()).push(
            kind_of(
                lookup(store_after(store, notices.drop_last()), notices.last().id),
                notices.last(),
            ),
        )
    }
}

/// Whether a poll that starts from `store` dispatches announcement `j` of
/// `notices`: whether it is fresh against the store as the announcements
/// before it have left it.
pub open spec fn dispatched_at(
    store: Map<Seq<char>, Seq<char>>,
    notices: Seq<NoticeText>,
    j: int,
) -> bool {
    is_fresh(lookup(store_after(store, notices.take(j)), notices[j].id), notices[j])
}

/// The messages that a poll sends, in their order: one for each announcement
/// that it dispatches.
pub open spec fn outbox_after(
    store: Map<Seq<char>, Seq<char>>,
    notices: Seq<NoticeText>,
    targets: Seq<TargetText>,
) -> Seq<MessageText>
    decreases notices.len(),
{
    if notices.len() == 0 {
        Seq::empty()
    } else {
        let before = outbox_after(store, notices.drop_last(), targets);
        if dispatched_at(store, notices, notices.len() - 1) {
            before.push(message_text(notices.last(), targets))
        } else {
            before
        }
    }
}

/// No two announcements of the list share an id.
pub open spec fn distinct_notice_ids(notices: Seq<NoticeText>) -> bool {
    forall|i: int, j: int|
        0 <= i < j < notices.len() ==> (#[trigger] notices[i]).id != (#[trigger] notices[j]).id
}

/// A poll leaves alone what the store holds for an id that none of its
/// announcements has.
pub proof fn lemma_other_ids_untouched(
    store: Map<Seq<char>, Seq<char>>,
    notices: Seq<NoticeText>,
    id: Seq<char>,
)
    requires
        forall|i: int| 0 <= i < notices.len() ==> (#[trigger] notices[i]).id != id,
    ensures
        lookup(store_after(store, notices), id) == lookup(store, id),
    decreases notices.len(),
{
    if notices.len() > 0 {
        let front = notices.drop_last();
        assert forall|i: int| 0 <= i < front.len() implies (#[trigger] front[i]).id != id by {
            assert(front[i] == notices[i]);
        }
        lemma_other_ids_untouched(store, front, id);
        assert(notices[notices.len() - 1].id != id);
    }
}

/// After a poll over announcements with distinct ids, the store holds for
/// each of them that can be digested the fingerprint of its content.
pub proof fn lemma_stored_after_poll(
    store: Map<Seq<char>, Seq<char>>,
    notices: Seq<NoticeText>,
    i: int,
)
    requires
        distinct_notice_ids(notices),
        0 <= i < notices.len(),
        digestible(notices[i].content),
    ensures
        lookup(store_after(store, notices), notices[i].id) == Some(
            fingerprint_of(notices[i].content),
        ),
    decreases notices.len(),
{
    let front = notices.drop_last();
    if i < notices.len() - 1 {
        assert(distinct_notice_ids(front)) by {
            assert forall|a: int, b: int| 0 <= a < b < front.len() implies (#[trigger] front[a]).id
                != (#[trigger] front[b]).id by {
                assert(front[a] == notices[a]);
                assert(front[b] == notices[b]);
            }
        }
        assert(front[i] == notices[i]);
        lemma_stored_after_poll(store, front, i);
        assert(notices[i].id != notices[notices.len() - 1].id);
    }
}

/// What the store holds for the id of announcement `j` when the poll turns
/// to it is what it held at the start, where the ids are distinct.
pub proof fn lemma_lookup_when_reached(
    store: Map<Seq<char>, Seq<char>>,
    notices: Seq<NoticeText>,
    j: int,
)
    requires
        distinct_notice_ids(notices),
        0 <= j < notices.len(),
    ensures
        lookup(store_after(store, notices.take(j)), notices[j].id) == lookup(store, notices[j].id),
{
    let earlier = notices.take(j);
    assert forall|i: int| 0 <= i < earlier.len() implies (#[trigger] earlier[i]).id
        != notices[j].id by {
        assert(earlier[i] == notices[i]);
    }
    lemma_other_ids_untouched(store, earlier, notices[j].id);
}

/// An announcement whose content is the same in two polls that follow one
/// another is not dispatched by the second: with the first it is dispatched
/// at most once. The ids in each poll are distinct.
pub proof fn lemma_unchanged_not_dispatched(
    store: Map<Seq<char>, Seq<char>>,
    first: Seq<NoticeText>,
    second: Seq<NoticeText>,
    i: int,
    j: int,
)
    requires
        distinct_notice_ids(first),
        distinct_notice_ids(second),
        0 <= i < first.len(),
        0 <= j < second.len(),
        first[i].id == second[j].id,
        first[i].content == second[j].content,
    ensures
        !dispatched_at(store_after(store, first), second, j),
        lookup(store_after(store_after(store, first), second), second[j].id) == lookup(
            store_after(store, first),
            second[j].id,
        ),
{
    let between = store_after(store, first);
    lemma_lookup_when_reached(between, second, j);
    if digestible(first[i].content) {
        lemma_stored_after_poll(store, first, i);
        lemma_stored_after_poll(between, second, j);
    } else {
        lemma_skipped_untouched(between, second, j);
    }
}

/// A poll leaves alone what the store holds for the id of an announcement
/// that it does not dispatch, where the ids are distinct.
pub proof fn lemma_skipped_untouched(
    store: Map<Seq<char>, Seq<char>>,
    notices: Seq<NoticeText>,
    j: int,
)
    requires
        distinct_notice_ids(notices),
        0 <= j < notices.len(),
        !dispatched_at(store, notices, j),
    ensures
        lookup(store_after(store, notices), notices[j].id) == lookup(store, notices[j].id),
    decreases notices.len(),
{
    let front = notices.drop_last();
    if j < notices.len() - 1 {
        assert(distinct_notice_ids(front)) by {
            assert forall|a: int, b: int| 0 <= a < b < front.len() implies (#[trigger] front[a]).id
                != (#[trigger] front[b]).id by {
                assert(front[a] == notices[a]);
                assert(front[b] == notices[b]);
            }
        }
        assert(front[j] == notices[j]);
        assert(front.take(j) =~= notices.take(j));
        lemma_skipped_untouched(store, front, j);
        assert(notices[j].id != notices[notices.len() - 1].id);
    } else {
        assert(notices.take(j) =~= front);
        lemma_lookup_when_reached(store, notices, j);
    }
}

/// An announcement whose fingerprint differs from that of the version that
/// the poll before dealt with is dispatched by the next poll, no other
/// announcement of that poll has its id, and after it the store holds the new
/// fingerprint. The ids in each poll are distinct and both versions can be
/// digested.
pub proof fn lemma_changed_dispatched_once(
    store: Map<Seq<char>, Seq<char>>,
    first: Seq<NoticeText>,
    second: Seq<NoticeText>,
    i: int,
    j: int,
)
    requires
        distinct_notice_ids(first),
        distinct_notice_ids(second),
        0 <= i < first.len(),
        0 <= j < second.len(),
        first[i].id == second[j].id,
        digestible(first[i].content),
        digestible(second[j].content),
        fingerprint_of(first[i].content) != fingerprint_of(second[j].content),
    ensures
        dispatched_at(store_after(store, first), second, j),
        forall|k: int| 0 <= k < second.len() && k != j ==> (#[trigger] second[k]).id != second[j].id,
        lookup(store_after(store_after(store, first), second), second[j].id) == Some(
            fingerprint_of(second[j].content),
        ),
{
    let between = store_after(store, first);
    lemma_stored_after_poll(store, first, i);
    lemma_lookup_when_reached(between, second, j);
    lemma_stored_after_poll(between, second, j);
    assert forall|k: int| 0 <= k < second.len() && k != j implies (#[trigger] second[k]).id
        != second[j].id by {
        if k < j {
            assert(second[k].id != second[j].id);
        } else {
            assert(second[j].id != second[k].id);
        }
    }
}

/// Once a poll has turned to an announcement that it dispatches, the store
/// holds the fingerprint of that announcement's content under its id: no
/// message goes out for a content whose fingerprint is not stored.
pub proof fn lemma_dispatch_is_recorded(
    store: Map<Seq<char>, Seq<char>>,
    notices: Seq<NoticeText>,
    j: int,
)
    requires
        0 <= j < notices.len(),
        dispatched_at(store, notices, j),
    ensures
        lookup(store_after(store, notices.take(j + 1)), notices[j].id) == Some(
            fingerprint_of(notices[j].content),
        ),
{
    assert(notices.take(j + 1).drop_last() =~= notices.take(j));
    assert(notices.take(j + 1).last() == notices[j]);
}

/// A poll over the announcements that the poll before has dealt with sends
/// nothing and leaves the store as it is, where the ids are distinct.
pub proof fn lemma_second_poll_sends_nothing(
    store: Map<Seq<char>, Seq<char>>,
    notices: Seq<NoticeText>,
    targets: Seq<TargetText>,
    k: int,
)
    requires
        distinct_notice_ids(notices),
        0 <= k <= notices.len(),
    ensures
        store_after(store_after(store, notices), notices.take(k)) == store_after(store, notices),
        outbox_after(store_after(store, notices), notices.take(k), targets) == Seq::<
            MessageText,
        >::empty(),
    decreases k,
{
    if k > 0 {
        let held = store_after(store, notices);
        lemma_second_poll_sends_nothing(store, notices, targets, k - 1);
        assert(notices.take(k).drop_last() =~= notices.take(k - 1));
        assert(notices.take(k).last() == notices[k - 1]);
        assert(notices.take(k).take(k - 1) =~= notices.take(k - 1));
        if digestible(notices[k - 1].content) {
            lemma_stored_after_poll(store, notices, k - 1);
        }
        assert(!dispatched_at(held, notices.take(k), k - 1));
    }
}

} // verus!
