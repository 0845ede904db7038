//! Messages: pages of them, the reactions to them, and who is told.

use crate::delivery;
use crate::delivery::Outgoing;
use crate::delivery::PayloadModel;
use crate::delivery::Post;
use crate::json;
use crate::json::JsonModel;
use crate::json::JsonObject;
use crate::json::JsonValue;
use crate::json::ReactionSummary;
use crate::records::Message;
use crate::records::MessageModel;
use crate::records::MessageResponse;
use crate::records::MessageView;
use crate::refusal::Lookup;
use crate::refusal::Refusal;
use crate::text;
use vstd::prelude::*;
use vstd::relations::*;
use vstd::seq_lib::*;

verus! {

// ---------------------------------------------------------------------------
// Pages
// ---------------------------------------------------------------------------

/// Which messages of a conversation are asked for.
#[derive(Debug, Clone, Copy, PartialEq, Eq, Structural)]
pub enum Page {
    All,
    Part { limit: i64, offset: i64 },
}

/// The most messages that a page holds.
pub const MAX_PAGE: i64 = 500;

/// The page that a client asks for: at most so many messages from a place on;
/// every message where it names no limit, or none above zero.
pub open spec fn page_for(limit: Option<i64>, offset: Option<i64>) -> Page {
    if limit is None || limit->0 <= 0 {
        Page::All
    } else {
        Page::Part {
            limit: if limit->0 > MAX_PAGE {
                MAX_PAGE
            } else {
                limit->0
            },
            offset: if offset is Some && offset->0 > 0 {
                offset->0
            } else {
                0
            },
        }
    }
}

/// The page that a client asks for.
pub fn requested_page(limit: Option<i64>, offset: Option<i64>) -> (r: Page)
    ensures
        r == page_for(limit, offset),
{
    match limit {
        Some(n) => {
            if n <= 0 {
                return Page::All;
            }
            let limit: i64 = if n > MAX_PAGE {
                MAX_PAGE
            } else {
                n
            };
            let offset: i64 = match offset {
                Some(k) => if k > 0 {
                    k
                } else {
                    0
                },
                None => 0,
            };
            Page::Part { limit, offset }
        },
        None => Page::All,
    }
}

// ---------------------------------------------------------------------------
// Reactions
// ---------------------------------------------------------------------------

/// A reaction of one user to one message.
#[derive(Debug)]
pub struct ReactionRow {
    pub message_id: String,
    pub emoji: String,
    pub reactor: String,
}

/// How often an emoji was given to a message.
pub open spec fn times_given(
    rows: Seq<ReactionRow>,
    message_id: Seq<char>,
    emoji: Seq<char>,
) -> nat
    decreases rows.len(),
{
    if rows.len() == 0 {
        0
    } else {
        times_given(rows.drop_last(), message_id, emoji) + (if rows.last().message_id@ == message_id
            && rows.last().emoji@ == emoji {
            1nat
        } else {
            0nat
        })
    }
}

/// How many reactions a message has.
pub open spec fn reaction_count(rows: Seq<ReactionRow>, message_id: Seq<char>) -> nat
    decreases rows.len(),
{
    if rows.len() == 0 {
        0
    } else {
        reaction_count(rows.drop_last(), message_id) + (if rows.last().message_id@ == message_id {
            1nat
        } else {
            0nat
        })
    }
}

/// Where an emoji stands in a tally; its length where it does not.
pub open spec fn place_of(tally: Seq<(Seq<char>, int)>, emoji: Seq<char>) -> int
    decreases tally.len(),
{
    if tally.len() == 0 {
        0
    } else if tally[0].0 == emoji {
        0
    } else {
        1 + place_of(tally.drop_first(), emoji)
    }
}

/// A tally with one more of an emoji.
pub open spec fn tally_one(tally: Seq<(Seq<char>, int)>, emoji: Seq<char>) -> Seq<
    (Seq<char>, int),
> {
    let at = place_of(tally, emoji);
    if at < tally.len() {
        tally.update(at, (emoji, tally[at].1 + 1))
    } else {
        tally.push((emoji, 1))
    }
}

/// The emojis given to a message, each with how often, in the order in which they
/// first came.
pub open spec fn tally(rows: Seq<ReactionRow>, message_id: Seq<char>) -> Seq<(Seq<char>, int)>
    decreases rows.len(),
{
    if rows.len() == 0 {
        Seq::empty()
    } else {
        let rest = tally(rows.drop_last(), message_id);
        if rows.last().message_id@ == message_id {
            tally_one(rest, rows.last().emoji@)
        } else {
            rest
        }
    }
}

/// The order in which emojis are shown: the most frequent first, and by their text
/// among those given equally often.
pub open spec fn reaction_order() -> spec_fn((Seq<char>, int), (Seq<char>, int)) -> bool {
    |a: (Seq<char>, int), b: (Seq<char>, int)|
        a.1 > b.1 || (a.1 == b.1 && !text::text_less(b.0, a.0))
}

/// The reactions to a message as they are shown.
pub open spec fn reactions_of(rows: Seq<ReactionRow>, message_id: Seq<char>) -> Seq<
    (Seq<char>, int),
> {
    tally(rows, message_id).sort_by(reaction_order())
}

/// The reaction of one user to a message, if there is one; of several, the last.
pub open spec fn reaction_by(
    rows: Seq<ReactionRow>,
    message_id: Seq<char>,
    viewer: Seq<char>,
) -> Option<Seq<char>>
    decreases rows.len(),
{
    if rows.len() == 0 {
        None
    } else if rows.last().message_id@ == message_id && rows.last().reactor@ == viewer {
        Some(rows.last().emoji@)
    } else {
        reaction_by(rows.drop_last(), message_id, viewer)
    }
}

/// The order of reactions is total.
pub proof fn reaction_order_total()
    ensures
        total_ordering(reaction_order()),
{
    let leq = reaction_order();
    assert forall|a: (Seq<char>, int)| #[trigger] leq(a, a) by {
        text::text_less_irreflexive(a.0);
    }
    assert forall|a: (Seq<char>, int), b: (Seq<char>, int)| #[trigger]
        leq(a, b) && #[trigger] leq(b, a) implies a == b by {
        text::text_less_total(a.0, b.0);
    }
    assert forall|a: (Seq<char>, int), b: (Seq<char>, int), c: (Seq<char>, int)| #[trigger]
        leq(a, b) && #[trigger] leq(b, c) implies leq(a, c) by {
        if a.1 == c.1 && text::text_less(c.0, a.0) {
            text::text_less_total(a.0, b.0);
            if a.0 != b.0 {
                text::text_less_transitive(c.0, a.0, b.0);
            }
        }
    }
    assert forall|a: (Seq<char>, int), b: (Seq<char>, int)| #[trigger] leq(a, b) || #[trigger] leq(
        b,
        a,
    ) by {
        if a.1 == b.1 && text::text_less(b.0, a.0) && text::text_less(a.0, b.0) {
            text::text_less_transitive(a.0, b.0, a.0);
            text::text_less_irreflexive(a.0);
        }
    }
}

proof fn place_of_bound(t: Seq<(Seq<char>, int)>, emoji: Seq<char>)
    ensures
        0 <= place_of(t, emoji) <= t.len(),
        place_of(t, emoji) < t.len() ==> t[place_of(t, emoji)].0 == emoji,
        forall|i: int| 0 <= i < place_of(t, emoji) ==> (#[trigger] t[i]).0 != emoji,
    decreases t.len(),
{
    if t.len() > 0 && t[0].0 != emoji {
        let rest = t.drop_first();
        place_of_bound(rest, emoji);
        assert forall|i: int| 0 <= i < place_of(t, emoji) implies (#[trigger] t[i]).0 != emoji by {
            if i > 0 {
                assert(rest[i - 1] == t[i]);
            }
        }
    }
}

/// The bounds that keep a count within its type.
proof fn tally_bound(rows: Seq<ReactionRow>, message_id: Seq<char>)
    ensures
        forall|i: int|
            0 <= i < tally(rows, message_id).len() ==> 0 < (#[trigger] tally(rows, message_id)[i]).1
                <= rows.len(),
    decreases rows.len(),
{
    if rows.len() > 0 {
        tally_bound(rows.drop_last(), message_id);
        let rest = tally(rows.drop_last(), message_id);
        if rows.last().message_id@ == message_id {
            place_of_bound(rest, rows.last().emoji@);
            let at = place_of(rest, rows.last().emoji@);
            let result = tally(rows, message_id);
            assert forall|i: int| 0 <= i < result.len() implies 0 < (#[trigger] result[i]).1
                <= rows.len() by {
                if i < rest.len() {
                    assert(0 < rest[i].1 <= rows.len() - 1);
                }
            }
        }
    }
}

fn find_emoji(v: &Vec<ReactionSummary>, emoji: &str) -> (r: usize)
    ensures
        r == place_of(json::summaries(v@), emoji@),
        r <= v@.len(),
{
    let ghost all = json::summaries(v@);
    let mut i: usize = 0;
    proof {
        assert(all.skip(0) == all);
    }
    while i < v.len()
        invariant
            i <= v@.len(),
            all == json::summaries(v@),
            place_of(all, emoji@) == i + place_of(all.skip(i as int), emoji@),
        decreases v@.len() - i,
    {
        proof {
            assert(all.skip(i as int).drop_first() =~= all.skip(i as int + 1));
            assert(all.skip(i as int)[0] == all[i as int]);
        }
        if text::str_eq(v[i].emoji.as_str(), emoji) {
            return i;
        }
        i += 1;
    }
    i
}

fn count_reactions(rows: &Vec<ReactionRow>, message_id: &str) -> (r: Vec<ReactionSummary>)
    requires
        rows@.len() <= i64::MAX,
    ensures
        json::summaries(r@) == tally(rows@, message_id@),
{
    let mut out: Vec<ReactionSummary> = Vec::new();
    let mut i: usize = 0;
    proof {
        assert(json::summaries(out@) =~= tally(rows@.take(0), message_id@));
    }
    while i < rows.len()
        invariant
            i <= rows@.len() <= i64::MAX,
            json::summaries(out@) == tally(rows@.take(i as int), message_id@),
        decreases rows@.len() - i,
    {
        proof {
            assert(rows@.take(i as int + 1).drop_last() =~= rows@.take(i as int));
            tally_bound(rows@.take(i as int), message_id@);
        }
        let row = &rows[i];
        if text::str_eq(row.message_id.as_str(), message_id) {
            let ghost before = json::summaries(out@);
            let at = find_emoji(&out, row.emoji.as_str());
            if at < out.len() {
                proof {
                    assert(before[at as int] == out@[at as int]@);
                }
                let count: i64 = out[at].count + 1;
                out.set(at, ReactionSummary { emoji: row.emoji.clone(), count });
                proof {
                    assert(json::summaries(out@) =~= tally_one(before, row.emoji@));
                }
            } else {
                out.push(ReactionSummary { emoji: row.emoji.clone(), count: 1 });
                proof {
                    assert(json::summaries(out@) =~= tally_one(before, row.emoji@));
                }
            }
        }
        i += 1;
    }
    proof {
        assert(rows@.take(rows@.len() as int) == rows@);
    }
    out
}

fn shown_before(a: &ReactionSummary, b: &ReactionSummary) -> (r: bool)
    ensures
        r == !reaction_order()(b@, a@),
{
    if a.count > b.count {
        true
    } else if a.count < b.count {
        false
    } else {
        text::str_less(a.emoji.as_str(), b.emoji.as_str())
    }
}

fn insert_reaction(out: &mut Vec<ReactionSummary>, s: ReactionSummary)
    requires
        sorted_by(json::summaries(old(out)@), reaction_order()),
    ensures
        sorted_by(json::summaries(final(out)@), reaction_order()),
        json::summaries(final(out)@).to_multiset() == json::summaries(
            old(out)@,
        ).to_multiset().insert(s@),
{
    let ghost before = json::summaries(out@);
    let ghost leq = reaction_order();
    let mut i: usize = 0;
    while i < out.len() && !shown_before(&s, &out[i])
        invariant
            json::summaries(out@) == before,
            leq == reaction_order(),
            i <= out@.len(),
            forall|j: int| 0 <= j < i ==> leq(#[trigger] before[j], s@),
        decreases out@.len() - i,
    {
        proof {
            assert(before[i as int] == out@[i as int]@);
        }
        i += 1;
    }
    let ghost item = s@;
    proof {
        if i < out@.len() {
            assert(before[i as int] == out@[i as int]@);
            assert(!leq(before[i as int], item));
        }
    }
    out.insert(i, s);
    proof {
        let after = json::summaries(out@);
        assert(after =~= before.insert(i as int, item));
        to_multiset_insert(before, i as int, item);
        reaction_order_total();
        assert forall|a: int, b: int| 0 <= a < b < after.len() implies #[trigger] leq(
            after[a],
            after[b],
        ) by {
            if b < i {
                assert(leq(before[a], before[b]));
            } else if b == i {
                assert(leq(before[a], item));
            } else if a > i {
                assert(leq(before[a - 1], before[b - 1]));
            } else {
                // Everything from position `i` on comes after the new item.
                assert(leq(item, before[i as int]) || leq(before[i as int], item));
                if b - 1 > i {
                    assert(leq(before[i as int], before[b - 1]));
                }
                assert(leq(item, before[b - 1]));
                if a < i {
                    assert(leq(before[a], before[b - 1]));
                }
            }
        }
    }
}

/// The reactions to a message as they are shown.
pub fn load_reactions(rows: &Vec<ReactionRow>, message_id: &str) -> (r: Vec<ReactionSummary>)
    requires
        rows@.len() <= i64::MAX,
    ensures
        json::summaries(r@) == reactions_of(rows@, message_id@),
{
    let counted = count_reactions(rows, message_id);
    let ghost all = json::summaries(counted@);
    let mut out: Vec<ReactionSummary> = Vec::new();
    let mut i: usize = 0;
    proof {
        assert(json::summaries(out@) =~= all.take(0));
    }
    while i < counted.len()
        invariant
            i <= counted@.len(),
            all == json::summaries(counted@),
            sorted_by(json::summaries(out@), reaction_order()),
            json::summaries(out@).to_multiset() == all.take(i as int).to_multiset(),
        decreases counted@.len() - i,
    {
        insert_reaction(
            &mut out,
            ReactionSummary { emoji: counted[i].emoji.clone(), count: counted[i].count },
        );
        i += 1;
        proof {
            assert(all[i as int - 1] == counted@[i as int - 1]@);
            assert(all.take(i as int) =~= all.take(i as int - 1).push(all[i as int - 1]));
            to_multiset_build(all.take(i as int - 1), all[i as int - 1]);
        }
    }
    proof {
        assert(all.take(all.len() as int) == all);
        reaction_order_total();
        all.lemma_sort_by_ensures(reaction_order());
        lemma_sorted_unique(
            json::summaries(out@),
            reactions_of(rows@, message_id@),
            reaction_order(),
        );
    }
    out
}

/// The reaction of one user to a message.
pub fn my_reaction(rows: &Vec<ReactionRow>, message_id: &str, viewer: &str) -> (r: Option<String>)
    ensures
        text::opt_text(r) == reaction_by(rows@, message_id@, viewer@),
{
    let mut i: usize = rows.len();
    proof {
        assert(rows@.take(rows@.len() as int) == rows@);
    }
    while i > 0
        invariant
            i <= rows@.len(),
            reaction_by(rows@, message_id@, viewer@) == reaction_by(
                rows@.take(i as int),
                message_id@,
                viewer@,
            ),
        decreases i,
    {
        i -= 1;
        proof {
            assert(rows@.take(i as int + 1).drop_last() =~= rows@.take(i as int));
            assert(rows@.take(i as int + 1).last() == rows@[i as int]);
        }
        if text::str_eq(rows[i].message_id.as_str(), message_id) && text::str_eq(
            rows[i].reactor.as_str(),
            viewer,
        ) {
            return Some(rows[i].emoji.clone());
        }
    }
    None
}

/// What a client's reaction comes to: no emoji takes the reaction back; one of more
/// than eight characters is refused.
pub open spec fn reaction_asked(emoji: Seq<char>) -> Result<Option<Seq<char>>, Refusal> {
    let word = text::trimmed(emoji);
    if word.len() == 0 {
        Ok(None)
    } else if word.len() > 8 {
        Err(Refusal::ReactionTooLong)
    } else {
        Ok(Some(word))
    }
}

/// What a client's reaction to a message comes to, where the message was looked
/// for and access to it decided.
pub fn plan_reaction(found: bool, allowed: bool, emoji: &str) -> (r: Result<
    Option<String>,
    Refusal,
>)
    ensures
        match r {
            Ok(change) => found && allowed && reaction_asked(emoji@) == Ok::<
                Option<Seq<char>>,
                Refusal,
            >(text::opt_text(change)),
            Err(e) => if !found {
                e == Refusal::NotFound
            } else if !allowed {
                e == Refusal::Forbidden
            } else {
                reaction_asked(emoji@) == Err::<Option<Seq<char>>, Refusal>(e)
            },
        },
{
    if !found {
        return Err(Refusal::NotFound);
    }
    if !allowed {
        return Err(Refusal::Forbidden);
    }
    let word = text::trim(emoji);
    if word.is_empty() {
        return Ok(None);
    }
    if text::chars_of(word).len() > 8 {
        return Err(Refusal::ReactionTooLong);
    }
    Ok(Some(word.to_string()))
}

/// What a user is told of the reactions to a message.
pub open spec fn reaction_object(
    message: MessageModel,
    rows: Seq<ReactionRow>,
    viewer: Seq<char>,
) -> Seq<(Seq<char>, JsonModel)> {
    seq![
        ("type"@, JsonModel::Text("reaction_updated"@)),
        ("messageId"@, JsonModel::Text(message.id)),
        ("sender"@, JsonModel::Text(message.sender)),
        ("receiver"@, JsonModel::Text(message.receiver)),
        ("serverId"@, json::text_or_null(message.server_id)),
        ("channelId"@, json::text_or_null(message.channel_id)),
        ("reactions"@, JsonModel::Reactions(reactions_of(rows, message.id))),
        ("myReaction"@, json::text_or_null(reaction_by(rows, message.id, viewer))),
    ]
}

/// What a user is told of the reactions to a message.
pub fn reaction_payload(message: &Message, rows: &Vec<ReactionRow>, viewer: &str) -> (r: JsonObject)
    requires
        rows@.len() <= i64::MAX,
    ensures
        r@ == reaction_object(message@, rows@, viewer@),
{
    let mut o = JsonObject::of_type("reaction_updated");
    o.put_text("messageId", message.id.as_str());
    o.put_text("sender", message.sender.as_str());
    o.put_text("receiver", message.receiver.as_str());
    o.put_opt("serverId", &message.server_id);
    o.put_opt("channelId", &message.channel_id);
    o.put("reactions", JsonValue::Reactions(load_reactions(rows, message.id.as_str())));
    let mine = my_reaction(rows, message.id.as_str(), viewer);
    o.put_opt("myReaction", &mine);
    proof {
        assert(o@ =~= reaction_object(message@, rows@, viewer@));
    }
    o
}

/// What each of a list of users is told of the reactions to a message.
pub fn reaction_events(message: &Message, rows: &Vec<ReactionRow>, viewers: &Vec<String>) -> (r: Vec<
    Outgoing,
>)
    requires
        rows@.len() <= i64::MAX,
    ensures
        delivery::posts(r@) == text::texts(viewers@).map_values(
            |viewer: Seq<char>|
                Post {
                    to: viewer,
                    payload: PayloadModel::Object(reaction_object(message@, rows@, viewer)),
                },
        ),
{
    let ghost all = text::texts(viewers@).map_values(
        |viewer: Seq<char>|
            Post {
                to: viewer,
                payload: PayloadModel::Object(reaction_object(message@, rows@, viewer)),
            },
    );
    let mut out: Vec<Outgoing> = Vec::new();
    let mut i: usize = 0;
    while i < viewers.len()
        invariant
            i <= viewers@.len(),
            rows@.len() <= i64::MAX,
            all == text::texts(viewers@).map_values(
                |viewer: Seq<char>|
                    Post {
                        to: viewer,
                        payload: PayloadModel::Object(reaction_object(message@, rows@, viewer)),
                    },
            ),
            delivery::posts(out@) =~= all.take(i as int),
        decreases viewers@.len() - i,
    {
        let ghost before = delivery::posts(out@);
        let viewer = viewers[i].as_str();
        out.push(delivery::object_for(viewer, reaction_payload(message, rows, viewer)));
        i += 1;
        proof {
            assert(delivery::posts(out@) =~= before.push(all[i as int - 1]));
            assert(all.take(i as int) =~= before.push(all[i as int - 1]));
        }
    }
    proof {
        assert(all.take(all.len() as int) == all);
    }
    out
}

// ---------------------------------------------------------------------------
// Lists of messages
// ---------------------------------------------------------------------------

/// A message as a user sees it.
pub open spec fn message_shown(
    message: MessageModel,
    rows: Seq<ReactionRow>,
    viewer: Seq<char>,
) -> MessageView {
    MessageView {
        message,
        reactions: reactions_of(rows, message.id),
        my_reaction: reaction_by(rows, message.id, viewer),
    }
}

/// The messages of a list whose file is there, as a user sees them.
pub open spec fn messages_shown(
    messages: Seq<Message>,
    present: Seq<bool>,
    rows: Seq<ReactionRow>,
    viewer: Seq<char>,
) -> Seq<MessageView>
    decreases messages.len(),
{
    if messages.len() == 0 {
        Seq::empty()
    } else {
        let rest = messages_shown(messages.drop_last(), present, rows, viewer);
        if present[messages.len() - 1] {
            rest.push(message_shown(messages.last()@, rows, viewer))
        } else {
            rest
        }
    }
}

/// The models of a list of messages as users see them.
pub open spec fn message_views(v: Seq<MessageResponse>) -> Seq<MessageView> {
    v.map_values(|m: MessageResponse| m@)
}

fn show_message(message: &Message, rows: &Vec<ReactionRow>, viewer: &str) -> (r: MessageResponse)
    requires
        rows@.len() <= i64::MAX,
    ensures
        r@ == message_shown(message@, rows@, viewer@),
{
    let reactions = load_reactions(rows, message.id.as_str());
    let mine = my_reaction(rows, message.id.as_str(), viewer);
    MessageResponse {
        id: message.id.clone(),
        client_id: text::clone_opt(&message.client_id),
        sender: message.sender.clone(),
        receiver: message.receiver.clone(),
        filename: message.filename.clone(),
        timestamp: message.timestamp,
        server_id: text::clone_opt(&message.server_id),
        channel_id: text::clone_opt(&message.channel_id),
        reactions,
        my_reaction: mine,
    }
}

/// The messages of a list whose file is there, as a user sees them. `present` says
/// of each message whether its file is there.
pub fn message_list(
    messages: &Vec<Message>,
    present: &Vec<bool>,
    rows: &Vec<ReactionRow>,
    viewer: &str,
) -> (r: Vec<MessageResponse>)
    requires
        messages@.len() == present@.len(),
        rows@.len() <= i64::MAX,
    ensures
        message_views(r@) == messages_shown(messages@, present@, rows@, viewer@),
{
    let mut out: Vec<MessageResponse> = Vec::new();
    let mut i: usize = 0;
    proof {
        assert(message_views(out@) =~= messages_shown(messages@.take(0), present@, rows@, viewer@));
    }
    while i < messages.len()
        invariant
            i <= messages@.len() == present@.len(),
            rows@.len() <= i64::MAX,
            message_views(out@) == messages_shown(
                messages@.take(i as int),
                present@,
                rows@,
                viewer@,
            ),
        decreases messages@.len() - i,
    {
        proof {
            assert(messages@.take(i as int + 1).drop_last() =~= messages@.take(i as int));
        }
        let ghost before = message_views(out@);
        if present[i] {
            out.push(show_message(&messages[i], rows, viewer));
            proof {
                assert(message_views(out@) =~= before.push(
                    message_shown(messages@[i as int]@, rows@, viewer@),
                ));
            }
        }
        i += 1;
    }
    proof {
        assert(messages@.take(messages@.len() as int) == messages@);
    }
    out
}

/// Whether a user may have the messages of a channel, where the server was looked
/// for and access to it and to the channel decided.
pub fn plan_channel_messages(server: Lookup<bool>, may_view: bool) -> (r: Result<(), Refusal>)
    ensures
        r == (match server {
            Lookup::Failed => Err::<(), Refusal>(Refusal::Internal),
            Lookup::Missing => Err(Refusal::Forbidden),
            Lookup::Found(open) => if open && may_view {
                Ok(())
            } else {
                Err(Refusal::Forbidden)
            },
        }),
{
    match server {
        Lookup::Failed => Err(Refusal::Internal),
        Lookup::Missing => Err(Refusal::Forbidden),
        Lookup::Found(open) => if open && may_view {
            Ok(())
        } else {
            Err(Refusal::Forbidden)
        },
    }
}

/// Who is told of a message outside any server: its receiver, and its sender if
/// that is another.
pub open spec fn ends_of(sender: Seq<char>, receiver: Seq<char>) -> Seq<Seq<char>> {
    if sender == receiver {
        seq![receiver]
    } else {
        seq![receiver, sender]
    }
}

/// Who is told of a message outside any server, in that order.
pub fn direct_recipients(message: &Message) -> (r: Vec<String>)
    ensures
        text::texts(r@) == ends_of(message@.sender, message@.receiver),
{
    let mut out: Vec<String> = Vec::new();
    out.push(message.receiver.clone());
    if !text::str_eq(message.sender.as_str(), message.receiver.as_str()) {
        out.push(message.sender.clone());
    }
    proof {
        assert(text::texts(out@) =~= ends_of(message@.sender, message@.receiver));
    }
    out
}

/// Who is told of a reaction to a message outside any server: its sender, and its
/// receiver if that is another.
pub fn reaction_viewers(message: &Message) -> (r: Vec<String>)
    ensures
        text::texts(r@) == (if message@.sender == message@.receiver {
            seq![message@.sender]
        } else {
            seq![message@.sender, message@.receiver]
        }),
{
    let mut out: Vec<String> = Vec::new();
    out.push(message.sender.clone());
    if !text::str_eq(message.sender.as_str(), message.receiver.as_str()) {
        out.push(message.receiver.clone());
    }
    proof {
        assert(text::texts(out@) =~= (if message@.sender == message@.receiver {
            seq![message@.sender]
        } else {
            seq![message@.sender, message@.receiver]
        }));
    }
    out
}

/// Who is told of something: users by name, or whoever may see a channel.
#[derive(Debug)]
pub enum Audience {
    Users(Vec<String>),
    Channel { server_id: String, channel_id: String },
}

/// The model of who is told.
pub enum AudienceModel {
    Users(Seq<Seq<char>>),
    Channel { server_id: Seq<char>, channel_id: Seq<char> },
}

impl View for Audience {
    type V = AudienceModel;

    open spec fn view(&self) -> AudienceModel {
        match self {
            Audience::Users(users) => AudienceModel::Users(text::texts(users@)),
            Audience::Channel { server_id, channel_id } => AudienceModel::Channel {
                server_id: server_id@,
                channel_id: channel_id@,
            },
        }
    }
}

/// Who is told of a new message: both its ends outside any server, and in one whoever
/// may see its channel; no one of a message in a server that names no channel.
pub open spec fn told_of_message(message: MessageModel) -> AudienceModel {
    match (message.server_id, message.channel_id) {
        (None, _) => AudienceModel::Users(ends_of(message.sender, message.receiver)),
        (Some(server_id), Some(channel_id)) => AudienceModel::Channel { server_id, channel_id },
        (Some(_), None) => AudienceModel::Users(Seq::empty()),
    }
}

/// Who is told of a reaction to a message: whoever may see its channel, and both its
/// ends where it names no channel of a server.
pub open spec fn told_of_reaction(message: MessageModel) -> AudienceModel {
    match (message.server_id, message.channel_id) {
        (Some(server_id), Some(channel_id)) => AudienceModel::Channel { server_id, channel_id },
        _ => AudienceModel::Users(
            if message.sender == message.receiver {
                seq![message.sender]
            } else {
                seq![message.sender, message.receiver]
            },
        ),
    }
}

/// Who is told of a new message.
pub fn audience(message: &Message) -> (r: Audience)
    ensures
        r@ == told_of_message(message@),
{
    match (&message.server_id, &message.channel_id) {
        (None, _) => Audience::Users(direct_recipients(message)),
        (Some(server_id), Some(channel_id)) => Audience::Channel {
            server_id: server_id.clone(),
            channel_id: channel_id.clone(),
        },
        (Some(_), None) => {
            let none: Vec<String> = Vec::new();
            proof {
                assert(text::texts(none@) =~= Seq::empty());
            }
            Audience::Users(none)
        },
    }
}

/// Who is told of a reaction to a message.
pub fn reaction_audience(message: &Message) -> (r: Audience)
    ensures
        r@ == told_of_reaction(message@),
{
    match (&message.server_id, &message.channel_id) {
        (Some(server_id), Some(channel_id)) => Audience::Channel {
            server_id: server_id.clone(),
            channel_id: channel_id.clone(),
        },
        _ => Audience::Users(reaction_viewers(message)),
    }
}

// ---------------------------------------------------------------------------
// Laws
// ---------------------------------------------------------------------------

/// A page never asks for more than its bound, nor from before the start.
pub proof fn pages_are_bounded(limit: Option<i64>, offset: Option<i64>)
    ensures
        page_for(limit, offset) matches Page::Part { limit: n, offset: k } ==> 1 <= n <= MAX_PAGE
            && 0 <= k,
{
}

/// A tally holds each emoji once, with how often it was given, and no other.
pub proof fn tally_facts(rows: Seq<ReactionRow>, message_id: Seq<char>)
    ensures
        forall|i: int, j: int|
            0 <= i < j < tally(rows, message_id).len() ==> (#[trigger] tally(
                rows,
                message_id,
            )[i]).0 != (#[trigger] tally(rows, message_id)[j]).0,
        forall|emoji: Seq<char>, n: int| #[trigger]
            tally(rows, message_id).contains((emoji, n)) <==> n > 0 && n == times_given(
                rows,
                message_id,
                emoji,
            ),
    decreases rows.len(),
{
    let result = tally(rows, message_id);
    if rows.len() > 0 {
        let init = rows.drop_last();
        let rest = tally(init, message_id);
        let row = rows.last();
        tally_facts(init, message_id);
        if row.message_id@ == message_id {
            let e = row.emoji@;
            let at = place_of(rest, e);
            place_of_bound(rest, e);
            // Only the emoji of the last row changes its count.
            assert forall|emoji: Seq<char>, n: int| #[trigger]
                result.contains((emoji, n)) <==> n > 0 && n == times_given(
                    rows,
                    message_id,
                    emoji,
                ) by {
                if at < rest.len() {
                    assert(rest.contains((e, rest[at].1))) by {
                        assert(rest[at] == (e, rest[at].1));
                    }
                    if emoji == e {
                        assert(result[at] == (e, rest[at].1 + 1));
                        if result.contains((emoji, n)) {
                            let i = choose|i: int| 0 <= i < result.len() && result[i] == (emoji, n);
                            if i != at {
                                assert(rest[i] == (emoji, n));
                                assert(rest[at].0 == e);
                            }
                        }
                    } else {
                        assert(result.contains((emoji, n)) <==> rest.contains((emoji, n))) by {
                            if rest.contains((emoji, n)) {
                                let i = choose|i: int| 0 <= i < rest.len() && rest[i] == (emoji, n);
                                assert(result[i] == (emoji, n));
                            }
                            if result.contains((emoji, n)) {
                                let i = choose|i: int|
                                    0 <= i < result.len() && result[i] == (emoji, n);
                                assert(rest[i] == (emoji, n));
                            }
                        }
                    }
                } else {
                    assert(times_given(init, message_id, e) == 0) by {
                        let k = times_given(init, message_id, e) as int;
                        if k > 0 {
                            assert(rest.contains((e, k)));
                            let i = choose|i: int| 0 <= i < rest.len() && rest[i] == (e, k);
                            assert(rest[i].0 == e);
                        }
                    }
                    assert(result[rest.len() as int] == (e, 1int));
                    if emoji == e {
                        if result.contains((emoji, n)) {
                            let i = choose|i: int| 0 <= i < result.len() && result[i] == (emoji, n);
                            if i < rest.len() {
                                assert(rest[i] == (emoji, n));
                                assert(rest[i].0 == e);
                            }
                        }
                    } else {
                        assert(result.contains((emoji, n)) <==> rest.contains((emoji, n))) by {
                            if rest.contains((emoji, n)) {
                                let i = choose|i: int| 0 <= i < rest.len() && rest[i] == (emoji, n);
                                assert(result[i] == (emoji, n));
                            }
                            if result.contains((emoji, n)) {
                                let i = choose|i: int|
                                    0 <= i < result.len() && result[i] == (emoji, n);
                                assert(rest[i] == (emoji, n));
                            }
                        }
                    }
                }
            }
            assert forall|i: int, j: int| 0 <= i < j < result.len() implies (
            #[trigger] result[i]).0 != (#[trigger] result[j]).0 by {
                if at < rest.len() {
                    assert(result[i].0 == rest[i].0);
                    assert(result[j].0 == rest[j].0);
                } else if j < rest.len() {
                    assert(result[i] == rest[i]);
                    assert(result[j] == rest[j]);
                } else {
                    assert(rest[i].0 != e);
                }
            }
        }
    }
}

/// The reactions shown are those given, each emoji once with how often it was given,
/// the most frequent first.
pub proof fn shown_reactions_are_those_given(rows: Seq<ReactionRow>, message_id: Seq<char>)
    ensures
        sorted_by(reactions_of(rows, message_id), reaction_order()),
        reactions_of(rows, message_id).no_duplicates(),
        forall|emoji: Seq<char>, n: int| #[trigger]
            reactions_of(rows, message_id).contains((emoji, n)) <==> n > 0 && n == times_given(
                rows,
                message_id,
                emoji,
            ),
{
    reaction_order_total();
    let t = tally(rows, message_id);
    t.lemma_sort_by_ensures(reaction_order());
    tally_facts(rows, message_id);
    broadcast use group_to_multiset_ensures;

    assert forall|emoji: Seq<char>, n: int| #[trigger]
        reactions_of(rows, message_id).contains((emoji, n)) <==> n > 0 && n == times_given(
            rows,
            message_id,
            emoji,
        ) by {
        let item = (emoji, n);
        assert(t.contains(item) <==> t.to_multiset().count(item) > 0);
        assert(reactions_of(rows, message_id).contains(item) <==> reactions_of(
            rows,
            message_id,
        ).to_multiset().count(item) > 0);
    }
    assert(t.no_duplicates()) by {
        assert forall|i: int, j: int| 0 <= i < t.len() && 0 <= j < t.len() && i != j implies t[i]
            != t[j] by {
            if i < j {
                assert(t[i].0 != t[j].0);
            } else {
                assert(t[j].0 != t[i].0);
            }
        }
    }
    t.lemma_multiset_has_no_duplicates();
    reactions_of(rows, message_id).lemma_multiset_has_no_duplicates_conv();
}

/// The sum of the counts in a tally.
pub open spec fn total_count(t: Seq<(Seq<char>, int)>) -> int
    decreases t.len(),
{
    if t.len() == 0 {
        0
    } else {
        total_count(t.drop_last()) + t.last().1
    }
}

proof fn total_after_update(t: Seq<(Seq<char>, int)>, at: int, item: (Seq<char>, int))
    requires
        0 <= at < t.len(),
    ensures
        total_count(t.update(at, item)) == total_count(t) - t[at].1 + item.1,
    decreases t.len(),
{
    let u = t.update(at, item);
    if at == t.len() - 1 {
        assert(u.drop_last() =~= t.drop_last());
    } else {
        assert(u.drop_last() =~= t.drop_last().update(at, item));
        total_after_update(t.drop_last(), at, item);
    }
}

/// Every reaction counts once: the counts of a message add up to its reactions.
pub proof fn counts_add_up(rows: Seq<ReactionRow>, message_id: Seq<char>)
    ensures
        total_count(tally(rows, message_id)) == reaction_count(rows, message_id),
    decreases rows.len(),
{
    if rows.len() > 0 {
        counts_add_up(rows.drop_last(), message_id);
        let rest = tally(rows.drop_last(), message_id);
        if rows.last().message_id@ == message_id {
            let e = rows.last().emoji@;
            let at = place_of(rest, e);
            place_of_bound(rest, e);
            if at < rest.len() {
                total_after_update(rest, at, (e, rest[at].1 + 1));
            } else {
                assert(rest.push((e, 1int)).drop_last() =~= rest);
            }
        }
    }
}

/// Of a message that names a channel exactly if it names a server, those who are told
/// of a reaction are those who are told of the message.
pub proof fn reactions_reach_who_got_the_message(message: MessageModel, user: Seq<char>)
    requires
        message.server_id is Some <==> message.channel_id is Some,
    ensures
        match (told_of_message(message), told_of_reaction(message)) {
            (AudienceModel::Users(a), AudienceModel::Users(b)) => a.contains(user) <==> b.contains(
                user,
            ),
            (a, b) => a == b,
        },
{
    let a = ends_of(message.sender, message.receiver);
    let b = if message.sender == message.receiver {
        seq![message.sender]
    } else {
        seq![message.sender, message.receiver]
    };
    assert(a[0] == message.receiver && b[0] == message.sender);
    if message.sender != message.receiver {
        assert(a[1] == message.sender && b[1] == message.receiver);
    }
    assert(a.contains(user) <==> user == message.sender || user == message.receiver);
    assert(b.contains(user) <==> user == message.sender || user == message.receiver);
}

/// An entry of a list carries the stored message unchanged: its id, client id, sender,
/// receiver, file name, time, server and channel, each as it is kept; with its reactions,
/// and that of the one who looks.
pub proof fn entries_carry_the_message(
    message: Message,
    rows: Seq<ReactionRow>,
    viewer: Seq<char>,
    r: MessageResponse,
)
    requires
        r@ == message_shown(message@, rows, viewer),
    ensures
        r.id@ == message.id@,
        text::opt_text(r.client_id) == text::opt_text(message.client_id),
        r.sender@ == message.sender@,
        r.receiver@ == message.receiver@,
        r.filename@ == message.filename@,
        r.timestamp == message.timestamp,
        text::opt_text(r.server_id) == text::opt_text(message.server_id),
        text::opt_text(r.channel_id) == text::opt_text(message.channel_id),
        json::summaries(r.reactions@) == reactions_of(rows, message.id@),
        text::opt_text(r.my_reaction) == reaction_by(rows, message.id@, viewer),
{
}

/// How many of the first messages of a list have their file.
pub open spec fn present_before(present: Seq<bool>, k: int) -> nat
    decreases k,
{
    if k <= 0 {
        0
    } else {
        present_before(present, k - 1) + (if present[k - 1] {
            1nat
        } else {
            0nat
        })
    }
}

/// A list has an entry for each message whose file is there and for no other, in the order
/// of the messages, and each entry carries its message unchanged.
pub proof fn lists_carry_every_message(
    messages: Seq<Message>,
    present: Seq<bool>,
    rows: Seq<ReactionRow>,
    viewer: Seq<char>,
    r: Seq<MessageResponse>,
    k: int,
)
    requires
        messages.len() == present.len(),
        message_views(r) == messages_shown(messages, present, rows, viewer),
        0 <= k < messages.len(),
    ensures
        r.len() == present_before(present, present.len() as int),
        present[k] ==> {
            let at = present_before(present, k) as int;
            &&& at < r.len()
            &&& r[at].id@ == messages[k].id@
            &&& text::opt_text(r[at].client_id) == text::opt_text(messages[k].client_id)
            &&& r[at].sender@ == messages[k].sender@
            &&& r[at].receiver@ == messages[k].receiver@
            &&& r[at].filename@ == messages[k].filename@
            &&& r[at].timestamp == messages[k].timestamp
            &&& text::opt_text(r[at].server_id) == text::opt_text(messages[k].server_id)
            &&& text::opt_text(r[at].channel_id) == text::opt_text(messages[k].channel_id)
            &&& json::summaries(r[at].reactions@) == reactions_of(rows, messages[k].id@)
            &&& text::opt_text(r[at].my_reaction) == reaction_by(rows, messages[k].id@, viewer)
        },
{
    shown_in_place(messages, present, rows, viewer);
    assert(message_views(r).len() == r.len());
    if present[k] {
        let at = present_before(present, k) as int;
        assert(message_views(r)[at] == r[at]@);
        entries_carry_the_message(messages[k], rows, viewer, r[at]);
    }
}

proof fn shown_in_place(
    messages: Seq<Message>,
    present: Seq<bool>,
    rows: Seq<ReactionRow>,
    viewer: Seq<char>,
)
    requires
        messages.len() <= present.len(),
    ensures
        messages_shown(messages, present, rows, viewer).len() == present_before(
            present,
            messages.len() as int,
        ),
        forall|k: int|
            0 <= k < messages.len() && present[k] ==> present_before(present, k) < present_before(
                present,
                messages.len() as int,
            ) && messages_shown(messages, present, rows, viewer)[present_before(
                present,
                k,
            ) as int] == message_shown((#[trigger] messages[k])@, rows, viewer),
    decreases messages.len(),
{
    if messages.len() > 0 {
        let init = messages.drop_last();
        shown_in_place(init, present, rows, viewer);
        let n = messages.len() - 1;
        assert forall|k: int| 0 <= k < messages.len() && present[k] implies present_before(
            present,
            k,
        ) < present_before(present, messages.len() as int) && messages_shown(
            messages,
            present,
            rows,
            viewer,
        )[present_before(present, k) as int] == message_shown(
            (#[trigger] messages[k])@,
            rows,
            viewer,
        ) by {
            if k < n {
                assert(init[k] == messages[k]);
            } else {
                assert(messages[k] == messages.last());
            }
        }
    }
}

/// How often an emoji was given is how many reactions to the message have it.
pub proof fn reactions_are_counted_one_by_one(
    rows: Seq<ReactionRow>,
    message_id: Seq<char>,
    emoji: Seq<char>,
)
    ensures
        times_given(rows, message_id, emoji) == rows.filter(
            |row: ReactionRow| row.message_id@ == message_id && row.emoji@ == emoji,
        ).len(),
        reaction_count(rows, message_id) == rows.filter(
            |row: ReactionRow| row.message_id@ == message_id,
        ).len(),
    decreases rows.len(),
{
    reveal(Seq::filter);
    if rows.len() > 0 {
        reactions_are_counted_one_by_one(rows.drop_last(), message_id, emoji);
    } else {
        assert(rows =~= Seq::empty());
    }
}

/// The most frequent emoji is shown first, and of those given equally often the one whose
/// text comes first.
pub proof fn frequent_reactions_come_first(
    rows: Seq<ReactionRow>,
    message_id: Seq<char>,
    i: int,
    j: int,
)
    requires
        0 <= i < j < reactions_of(rows, message_id).len(),
    ensures
        ({
            let a = reactions_of(rows, message_id)[i];
            let b = reactions_of(rows, message_id)[j];
            &&& a.1 >= b.1
            &&& a.1 == b.1 ==> text::text_less(a.0, b.0)
            &&& a.0 != b.0
        }),
{
    shown_reactions_are_those_given(rows, message_id);
    let all = reactions_of(rows, message_id);
    let a = all[i];
    let b = all[j];
    assert(reaction_order()(a, b));
    assert(all.contains((a.0, a.1))) by {
        assert(all[i] == (a.0, a.1));
    }
    assert(all.contains((b.0, b.1))) by {
        assert(all[j] == (b.0, b.1));
    }
    assert(a != b);
    text::text_less_total(a.0, b.0);
}

/// Whether a row is a user's reaction to a message, and no later one is.
pub open spec fn last_reaction(
    rows: Seq<ReactionRow>,
    k: int,
    message_id: Seq<char>,
    viewer: Seq<char>,
) -> bool {
    &&& 0 <= k < rows.len()
    &&& rows[k].message_id@ == message_id && rows[k].reactor@ == viewer
    &&& forall|j: int|
        k < j < rows.len() ==> !((#[trigger] rows[j]).message_id@ == message_id && rows[j].reactor@
            == viewer)
}

/// A user's own reaction to a message is the last that they gave it; who gave none has
/// none. Reactions of others and to other messages do not count.
pub proof fn own_reactions_are_shown(
    rows: Seq<ReactionRow>,
    message_id: Seq<char>,
    viewer: Seq<char>,
)
    ensures
        (forall|j: int|
            0 <= j < rows.len() ==> !((#[trigger] rows[j]).message_id@ == message_id
                && rows[j].reactor@ == viewer)) ==> reaction_by(rows, message_id, viewer) is None,
        forall|k: int| #[trigger]
            last_reaction(rows, k, message_id, viewer) ==> reaction_by(rows, message_id, viewer)
                == Some(rows[k].emoji@),
    decreases rows.len(),
{
    if rows.len() > 0 {
        let init = rows.drop_last();
        let last = rows.len() - 1;
        own_reactions_are_shown(init, message_id, viewer);
        if forall|j: int|
            0 <= j < rows.len() ==> !((#[trigger] rows[j]).message_id@ == message_id
                && rows[j].reactor@ == viewer) {
            assert(!(rows[last].message_id@ == message_id && rows[last].reactor@ == viewer));
            assert forall|j: int| 0 <= j < init.len() implies !((
            #[trigger] init[j]).message_id@ == message_id && init[j].reactor@ == viewer) by {
                assert(!(rows[j].message_id@ == message_id && rows[j].reactor@ == viewer));
            }
        }
        assert forall|k: int| #[trigger] last_reaction(
            rows,
            k,
            message_id,
            viewer,
        ) implies reaction_by(rows, message_id, viewer) == Some(rows[k].emoji@) by {
            if k < last {
                assert(!(rows[last].message_id@ == message_id && rows[last].reactor@ == viewer));
                assert forall|j: int| k < j < init.len() implies !((
                #[trigger] init[j]).message_id@ == message_id && init[j].reactor@ == viewer) by {
                    assert(!(rows[j].message_id@ == message_id && rows[j].reactor@ == viewer));
                }
                assert(last_reaction(init, k, message_id, viewer));
            }
        }
    }
}

/// Who is told of a reaction is told of which message it is, between whom and where, all
/// of its reactions, and their own.
pub proof fn reaction_events_say_what_happened(
    message: Message,
    rows: Seq<ReactionRow>,
    viewer: Seq<char>,
)
    ensures
        reaction_object(message@, rows, viewer) == seq![
            ("type"@, JsonModel::Text("reaction_updated"@)),
            ("messageId"@, JsonModel::Text(message.id@)),
            ("sender"@, JsonModel::Text(message.sender@)),
            ("receiver"@, JsonModel::Text(message.receiver@)),
            (
                "serverId"@,
                match message.server_id {
                    Some(id) => JsonModel::Text(id@),
                    None => JsonModel::Null,
                },
            ),
            (
                "channelId"@,
                match message.channel_id {
                    Some(id) => JsonModel::Text(id@),
                    None => JsonModel::Null,
                },
            ),
            ("reactions"@, JsonModel::Reactions(reactions_of(rows, message.id@))),
            (
                "myReaction"@,
                match reaction_by(rows, message.id@, viewer) {
                    Some(emoji) => JsonModel::Text(emoji),
                    None => JsonModel::Null,
                },
            ),
        ],
{
    assert(reaction_object(message@, rows, viewer) =~= seq![
        ("type"@, JsonModel::Text("reaction_updated"@)),
        ("messageId"@, JsonModel::Text(message.id@)),
        ("sender"@, JsonModel::Text(message.sender@)),
        ("receiver"@, JsonModel::Text(message.receiver@)),
        (
            "serverId"@,
            match message.server_id {
                Some(id) => JsonModel::Text(id@),
                None => JsonModel::Null,
            },
        ),
        (
            "channelId"@,
            match message.channel_id {
                Some(id) => JsonModel::Text(id@),
                None => JsonModel::Null,
            },
        ),
        ("reactions"@, JsonModel::Reactions(reactions_of(rows, message.id@))),
        (
            "myReaction"@,
            match reaction_by(rows, message.id@, viewer) {
                Some(emoji) => JsonModel::Text(emoji),
                None => JsonModel::Null,
            },
        ),
    ]);
}

/// A reaction of one to eight characters, without white space at its ends, is given as it
/// is; a longer one is refused, and a blank one takes the reaction back.
pub proof fn reactions_are_given_as_asked(emoji: Seq<char>)
    ensures
        text::blank(emoji) ==> reaction_asked(emoji) == Ok::<Option<Seq<char>>, Refusal>(None),
        1 <= text::trimmed(emoji).len() <= 8 ==> reaction_asked(emoji) == Ok::<
            Option<Seq<char>>,
            Refusal,
        >(Some(text::trimmed(emoji))),
        text::trimmed(emoji).len() > 8 ==> reaction_asked(emoji) == Err::<Option<Seq<char>>, Refusal>(
            Refusal::ReactionTooLong,
        ),
{
}

/// A page is what is asked for: every message without a limit above zero, else as many as
/// asked, up to five hundred, from the place asked, which is not before the first.
pub proof fn pages_are_as_asked(limit: i64, offset: i64)
    ensures
        page_for(None, Some(offset)) == Page::All,
        limit <= 0 ==> page_for(Some(limit), Some(offset)) == Page::All,
        1 <= limit <= 500 && offset >= 0 ==> page_for(Some(limit), Some(offset)) == (Page::Part {
            limit,
            offset,
        }),
        1 <= limit <= 500 ==> page_for(Some(limit), None) == (Page::Part { limit, offset: 0 }),
        limit > 500 && offset >= 0 ==> page_for(Some(limit), Some(offset)) == (Page::Part {
            limit: 500,
            offset,
        }),
        limit > 500 ==> page_for(Some(limit), None) == (Page::Part { limit: 500, offset: 0 }),
        1 <= limit <= 500 && offset < 0 ==> page_for(Some(limit), Some(offset)) == (Page::Part {
            limit,
            offset: 0,
        }),
        limit > 500 && offset < 0 ==> page_for(Some(limit), Some(offset)) == (Page::Part {
            limit: 500,
            offset: 0,
        }),
{
}

/// A direct message is told to its receiver and its sender and to no one else; one in a
/// channel to whoever may see that channel.
pub proof fn messages_are_told_to_whom_they_concern(message: Message, user: Seq<char>)
    ensures
        message.server_id is None ==> {
            &&& told_of_message(message@) is Users
            &&& told_of_message(message@)->Users_0.contains(user) <==> user == message.sender@
                || user == message.receiver@
            &&& told_of_message(message@)->Users_0.no_duplicates()
            &&& told_of_reaction(message@) is Users
            &&& told_of_reaction(message@)->Users_0.contains(user) <==> user == message.sender@
                || user == message.receiver@
            &&& told_of_reaction(message@)->Users_0.no_duplicates()
        },
        message.server_id is Some && message.channel_id is Some ==> {
            &&& told_of_message(message@) == (AudienceModel::Channel {
                server_id: message.server_id->0@,
                channel_id: message.channel_id->0@,
            })
            &&& told_of_reaction(message@) == (AudienceModel::Channel {
                server_id: message.server_id->0@,
                channel_id: message.channel_id->0@,
            })
        },
        message.server_id is Some && message.channel_id is None ==> told_of_message(message@)
            == AudienceModel::Users(Seq::empty()),
{
    let sender = message.sender@;
    let receiver = message.receiver@;
    let a = ends_of(sender, receiver);
    let b = if sender == receiver {
        seq![sender]
    } else {
        seq![sender, receiver]
    };
    assert(a[0] == receiver && b[0] == sender);
    if sender != receiver {
        assert(a[1] == sender && b[1] == receiver);
    }
    assert(a.contains(user) <==> user == sender || user == receiver);
    assert(b.contains(user) <==> user == sender || user == receiver);
}

/// A list answers with an entry for each message whose file is there, in their order, and
/// every entry is the stored message, field by field.
pub proof fn lists_answer_with_the_messages(
    messages: &Vec<Message>,
    present: &Vec<bool>,
    rows: &Vec<ReactionRow>,
    viewer: &str,
    r: Vec<MessageResponse>,
    k: int,
)
    requires
        call_ensures(message_list, (messages, present, rows, viewer), r),
        messages@.len() == present@.len(),
        0 <= k < messages@.len(),
    ensures
        r@.len() == present_before(present@, present@.len() as int),
        present@[k] ==> {
            let entry = r@[present_before(present@, k) as int];
            let message = messages@[k];
            &&& present_before(present@, k) < r@.len()
            &&& entry.id@ == message.id@
            &&& entry.client_id is Some <==> message.client_id is Some
            &&& message.client_id is Some ==> entry.client_id->0@ == message.client_id->0@
            &&& entry.sender@ == message.sender@
            &&& entry.receiver@ == message.receiver@
            &&& entry.filename@ == message.filename@
            &&& entry.timestamp == message.timestamp
            &&& entry.server_id is Some <==> message.server_id is Some
            &&& message.server_id is Some ==> entry.server_id->0@ == message.server_id->0@
            &&& entry.channel_id is Some <==> message.channel_id is Some
            &&& message.channel_id is Some ==> entry.channel_id->0@ == message.channel_id->0@
        },
{
    lists_carry_every_message(messages@, present@, rows@, viewer@, r@, k);
}

/// The reactions to a message are shown with how many rows give them, every one that was
/// given and no other.
pub proof fn reactions_are_shown_with_their_count(
    rows: &Vec<ReactionRow>,
    message_id: &str,
    r: Vec<ReactionSummary>,
    emoji: Seq<char>,
    i: int,
)
    requires
        call_ensures(load_reactions, (rows, message_id), r),
    ensures
        ({
            let id = message_id@;
            let given = rows@.filter(
                |row: ReactionRow| row.message_id@ == id && row.emoji@ == emoji,
            );
            &&& 0 <= i < r@.len() && r@[i].emoji@ == emoji ==> r@[i].count == given.len()
                && given.len() > 0
            &&& given.len() > 0 ==> exists|j: int|
                0 <= j < r@.len() && (#[trigger] r@[j]).emoji@ == emoji
        }),
{
    let id = message_id@;
    let n = times_given(rows@, id, emoji) as int;
    reactions_are_counted_one_by_one(rows@, id, emoji);
    shown_reactions_are_those_given(rows@, id);
    let shown = json::summaries(r@);
    assert(shown.len() == r@.len());
    if 0 <= i < r@.len() && r@[i].emoji@ == emoji {
        assert(shown[i] == (emoji, r@[i].count as int));
        assert(shown.contains((emoji, r@[i].count as int)));
    }
    if n > 0 {
        assert(shown.contains((emoji, n)));
        let j = choose|j: int| 0 <= j < shown.len() && shown[j] == (emoji, n);
        assert(r@[j].emoji@ == emoji);
    }
}

/// The most frequent reaction is shown first; of those that are given equally often, the one
/// whose text comes first.
pub proof fn reactions_are_shown_in_order(
    rows: &Vec<ReactionRow>,
    message_id: &str,
    r: Vec<ReactionSummary>,
    i: int,
    j: int,
)
    requires
        call_ensures(load_reactions, (rows, message_id), r),
        0 <= i < j < r@.len(),
    ensures
        r@[i].count >= r@[j].count,
        r@[i].count == r@[j].count ==> text::text_less(r@[i].emoji@, r@[j].emoji@),
{
    let shown = json::summaries(r@);
    assert(shown.len() == r@.len());
    assert(shown[i] == r@[i]@ && shown[j] == r@[j]@);
    frequent_reactions_come_first(rows@, message_id@, i, j);
}

/// A user's own reaction is the last row of theirs for the message.
pub proof fn own_reactions_are_found(
    rows: &Vec<ReactionRow>,
    message_id: &str,
    viewer: &str,
    r: Option<String>,
    k: int,
)
    requires
        call_ensures(my_reaction, (rows, message_id, viewer), r),
    ensures
        last_reaction(rows@, k, message_id@, viewer@) ==> r is Some && r->0@ == rows@[k].emoji@,
        (forall|j: int|
            0 <= j < rows@.len() ==> !((#[trigger] rows@[j]).message_id@ == message_id@
                && rows@[j].reactor@ == viewer@)) ==> r is None,
{
    own_reactions_are_shown(rows@, message_id@, viewer@);
}

/// A reaction is taken to a message that is there from who may read it: one to eight
/// characters without white space at the ends, as they are, or nothing, which takes it back.
pub proof fn which_reactions_are_taken(
    found: bool,
    allowed: bool,
    emoji: &str,
    r: Result<Option<String>, Refusal>,
)
    requires
        call_ensures(plan_reaction, (found, allowed, emoji), r),
    ensures
        ({
            let word = text::trimmed(emoji@);
            &&& !found ==> r == Err::<Option<String>, Refusal>(Refusal::NotFound)
            &&& found && !allowed ==> r == Err::<Option<String>, Refusal>(Refusal::Forbidden)
            &&& found && allowed && word.len() > 8 ==> r == Err::<Option<String>, Refusal>(
                Refusal::ReactionTooLong,
            )
            &&& found && allowed && word.len() == 0 ==> r is Ok && r->Ok_0 is None
            &&& found && allowed && 1 <= word.len() <= 8 ==> r is Ok && r->Ok_0 is Some
                && r->Ok_0->0@ == word
        }),
{
}

/// A page is as asked: all messages without a limit above zero, and else no more than asked
/// or five hundred, from the place asked or the first.
pub proof fn which_page_is_given(limit: Option<i64>, offset: Option<i64>, r: Page)
    requires
        call_ensures(requested_page, (limit, offset), r),
    ensures
        r is All <==> limit is None || limit->0 <= 0,
        r is Part ==> {
            &&& r->limit == if limit->0 <= 500 {
                limit->0
            } else {
                500
            }
            &&& r->offset == if offset is Some && offset->0 >= 0 {
                offset->0
            } else {
                0
            }
        },
{
}

/// Everyone who sees a message is told of its reactions, in their order, each with their own.
pub proof fn who_is_told_of_reactions(
    message: &Message,
    rows: &Vec<ReactionRow>,
    viewers: &Vec<String>,
    r: Vec<Outgoing>,
    i: int,
)
    requires
        call_ensures(reaction_events, (message, rows, viewers), r),
    ensures
        r@.len() == viewers@.len(),
        0 <= i < r@.len() ==> r@[i].to@ == viewers@[i]@ && r@[i].payload is Object
            && r@[i].payload->Object_0@ == reaction_object(message@, rows@, viewers@[i]@),
{
    let told = delivery::posts(r@);
    assert(told.len() == r@.len());
    if 0 <= i < r@.len() {
        assert(told[i] == r@[i]@);
        assert(text::texts(viewers@)[i] == viewers@[i]@);
    }
}

/// Messages of a channel are shown where the server is there and open and the channel may be
/// viewed.
pub proof fn when_channel_messages_are_shown(
    server: Lookup<bool>,
    may_view: bool,
    r: Result<(), Refusal>,
)
    requires
        call_ensures(plan_channel_messages, (server, may_view), r),
    ensures
        r is Ok <==> server == Lookup::Found(true) && may_view,
        server is Failed <==> r == Err::<(), Refusal>(Refusal::Internal),
        r is Err && !(server is Failed) ==> r->Err_0 == Refusal::Forbidden,
{
}

/// A direct message is told to its receiver and then its sender, and of a reaction the
/// sender is told first; who writes to themselves is told once.
pub proof fn whom_direct_messages_are_told(
    message: &Message,
    r: Vec<String>,
    of_reaction: Vec<String>,
)
    requires
        call_ensures(direct_recipients, (message,), r),
        call_ensures(reaction_viewers, (message,), of_reaction),
    ensures
        ({
            let alone = message.sender@ == message.receiver@;
            let count: int = if alone {
                1
            } else {
                2
            };
            &&& r@.len() == count && of_reaction@.len() == count
            &&& r@[0]@ == message.receiver@
            &&& of_reaction@[0]@ == message.sender@
            &&& !alone ==> r@[1]@ == message.sender@ && of_reaction@[1]@ == message.receiver@
        }),
{
    assert(text::texts(r@).len() == r@.len());
    assert(text::texts(of_reaction@).len() == of_reaction@.len());
    assert(text::texts(r@)[0] == r@[0]@);
    assert(text::texts(of_reaction@)[0] == of_reaction@[0]@);
    if message.sender@ != message.receiver@ {
        assert(text::texts(r@)[1] == r@[1]@);
        assert(text::texts(of_reaction@)[1] == of_reaction@[1]@);
    }
}

/// Of a message in a channel, and of a reaction to it, those are told who may see the
/// channel; of one outside any server its two ends; of one in a server without a channel no
/// one, but of a reaction to it its two ends.
pub proof fn who_is_told(
    message: &Message,
    r: Audience,
    of_reaction: Audience,
    direct: Vec<String>,
    viewers: Vec<String>,
)
    requires
        call_ensures(audience, (message,), r),
        call_ensures(reaction_audience, (message,), of_reaction),
        call_ensures(direct_recipients, (message,), direct),
        call_ensures(reaction_viewers, (message,), viewers),
    ensures
        ({
            let in_channel = message.server_id is Some && message.channel_id is Some;
            &&& in_channel ==> r is Channel && r->server_id@ == message.server_id->0@
                && r->channel_id@ == message.channel_id->0@
            &&& in_channel ==> of_reaction is Channel && of_reaction->server_id@
                == message.server_id->0@ && of_reaction->channel_id@ == message.channel_id->0@
            &&& message.server_id is None ==> r is Users && text::texts(r->Users_0@)
                == text::texts(direct@)
            &&& message.server_id is Some && message.channel_id is None ==> r is Users
                && r->Users_0@.len() == 0
            &&& !in_channel ==> of_reaction is Users && text::texts(of_reaction->Users_0@)
                == text::texts(viewers@)
        }),
{
    if r is Users {
        assert(text::texts(r->Users_0@).len() == r->Users_0@.len());
    }
}

} // verus!
