use vstd::prelude::*;

use crate::chat::{message_views, text_message, ChatMessage, ChatMessageView};
use crate::text::{
    chars_of, find_from, find_from_exec, lemma_find_from, lemma_find_from_skip, push_range,
    push_str, split_by, starts_with_chars, string_of, strip_prefix, trim, trim_chars,
};
use crate::tools::{joined_path, path_join};

verus! {

broadcast use vstd::string::group_string_axioms;

/// The line that ends each saved message.
pub open spec fn end_marker() -> Seq<char> {
    "--- END ---"@
}

/// The line that starts a saved message of the user.
pub open spec fn user_marker() -> Seq<char> {
    "--- USER ---"@
}

/// The line that starts a saved reply.
pub open spec fn assistant_marker() -> Seq<char> {
    "--- ASSISTANT ---"@
}

/// Where a workspace keeps its conversation.
pub open spec fn history_path(workspace: Seq<char>) -> Seq<char> {
    joined_path(joined_path(workspace, ".agent"@), "HISTORY.log"@)
}

/// Where a workspace keeps its conversation: `.agent/HISTORY.log` under it.
pub fn get_history_path(workspace: &str) -> (p: String)
    ensures
        p@ == history_path(workspace@),
{
    let dir = path_join(workspace, ".agent");
    path_join(dir.as_str(), "HISTORY.log")
}

/// How one message is saved: messages of the user and replies between their
/// marker and the end marker (an absent text saved as empty); other messages
/// are not saved.
pub open spec fn history_block(m: ChatMessageView) -> Seq<char> {
    let c = match m.content {
        Some(c) => c,
        None => Seq::empty(),
    };
    if m.role == "user"@ {
        user_marker() + "\n"@ + c + "\n"@ + end_marker() + "\n\n"@
    } else if m.role == "assistant"@ {
        assistant_marker() + "\n"@ + c + "\n"@ + end_marker() + "\n\n"@
    } else {
        Seq::empty()
    }
}

/// The saved form of a conversation.
pub open spec fn history_text(ms: Seq<ChatMessageView>) -> Seq<char>
    decreases ms.len(),
{
    if ms.len() == 0 {
        Seq::empty()
    } else {
        history_text(ms.drop_last()) + history_block(ms.last())
    }
}

/// What one piece between end markers gives back: after trimming, a piece
/// that starts with a marker gives a message of that kind with the rest,
/// trimmed, as its text, unless that is empty; any other piece gives nothing.
pub open spec fn history_piece(p: Seq<char>) -> Seq<ChatMessageView> {
    let t = trim(p);
    if t.len() == 0 {
        Seq::empty()
    } else {
        match strip_prefix(t, user_marker()) {
            Some(r) => if trim(r).len() > 0 {
                seq![text_message("user"@, Some(trim(r)))]
            } else {
                Seq::empty()
            },
            None => match strip_prefix(t, assistant_marker()) {
                Some(r) => if trim(r).len() > 0 {
                    seq![text_message("assistant"@, Some(trim(r)))]
                } else {
                    Seq::empty()
                },
                None => Seq::empty(),
            },
        }
    }
}

/// The messages of the pieces, in order.
pub open spec fn history_pieces(ps: Seq<Seq<char>>) -> Seq<ChatMessageView>
    decreases ps.len(),
{
    if ps.len() == 0 {
        Seq::empty()
    } else {
        history_piece(ps[0]) + history_pieces(ps.drop_first())
    }
}

/// The conversation read back from its saved form.
pub open spec fn parse_history_text(s: Seq<char>) -> Seq<ChatMessageView> {
    history_pieces(split_by(s, end_marker()))
}

fn history_piece_exec(s: &[char], lo: usize, hi: usize) -> (r: Option<ChatMessage>)
    requires
        lo <= hi <= s.len(),
    ensures
        match r {
            Some(m) => history_piece(s@.subrange(lo as int, hi as int)) == seq![m@],
            None => history_piece(s@.subrange(lo as int, hi as int)) == Seq::<
                ChatMessageView,
            >::empty(),
        },
{
    let mut p: Vec<char> = Vec::new();
    push_range(&mut p, s, lo, hi);
    let t = trim_chars(p.as_slice());
    if t.len() == 0 {
        return None;
    }
    let um = chars_of("--- USER ---");
    let am = chars_of("--- ASSISTANT ---");
    let (role, marker) = if starts_with_chars(t.as_slice(), um.as_slice()) {
        ("user", um)
    } else if starts_with_chars(t.as_slice(), am.as_slice()) {
        ("assistant", am)
    } else {
        return None;
    };
    let mut rest: Vec<char> = Vec::new();
    push_range(&mut rest, t.as_slice(), marker.len(), t.len());
    assert(rest@ =~= t@.skip(marker@.len() as int));
    let c = trim_chars(rest.as_slice());
    if c.len() == 0 {
        return None;
    }
    let m = ChatMessage::text(role, Some(string_of(c.as_slice())));
    Some(m)
}

/// Reads a saved conversation: the text is cut at each end marker and every
/// piece gives at most one message.
pub fn parse_history(content: &str) -> (ms: Vec<ChatMessage>)
    ensures
        message_views(ms@) == parse_history_text(content@),
{
    let s = chars_of(content);
    let d = chars_of("--- END ---");
    proof {
        reveal_strlit("--- END ---");
    }
    let mut out: Vec<ChatMessage> = Vec::new();
    let mut k: usize = 0;
    assert(s@.skip(0) =~= s@);
    loop
        invariant
            d@ == end_marker(),
            d@.len() == 11,
            k <= s.len(),
            parse_history_text(content@) == message_views(out@) + history_pieces(
                split_by(s@.skip(k as int), d@),
            ),
            s@ == content@,
        decreases s.len() - k,
    {
        let ghost t = s@.skip(k as int);
        proof {
            lemma_find_from_skip(s@, d@, k as int, 0);
            lemma_find_from(s@, d@, k as int);
        }
        match find_from_exec(s.as_slice(), d.as_slice(), k) {
            None => {
                let piece = history_piece_exec(s.as_slice(), k, s.len());
                assert(t =~= s@.subrange(k as int, s.len() as int));
                assert(split_by(t, d@) == seq![t]);
                assert(history_pieces(seq![t]) =~= history_piece(t)) by {
                    assert(seq![t].drop_first() =~= Seq::<Seq<char>>::empty());
                    assert(seq![t][0] == t);
                    assert(history_pieces(Seq::<Seq<char>>::empty()) =~= Seq::<
                        ChatMessageView,
                    >::empty());
                }
                let ghost before = message_views(out@);
                match piece {
                    Some(m) => {
                        out.push(m);
                        assert(message_views(out@) =~= before + history_piece(t));
                    },
                    None => {
                        assert(before =~= before + history_piece(t));
                    },
                }
                return out;
            },
            Some(i) => {
                let piece = history_piece_exec(s.as_slice(), k, i);
                let ghost x = s@.subrange(k as int, i as int);
                assert(t.take(i - k) =~= x);
                assert(t.skip(i - k + 11) =~= s@.skip(i + 11));
                assert(split_by(t, d@) == seq![x] + split_by(s@.skip(i + 11), d@));
                let ghost rest = split_by(s@.skip(i + 11), d@);
                assert((seq![x] + rest).drop_first() =~= rest);
                assert(history_pieces(seq![x] + rest) == history_piece(x) + history_pieces(rest));
                let ghost before = message_views(out@);
                match piece {
                    Some(m) => {
                        out.push(m);
                        assert(message_views(out@) =~= before + history_piece(x));
                    },
                    None => {
                        assert(before =~= before + history_piece(x));
                    },
                }
                assert(message_views(out@) + history_pieces(rest) =~= before + (history_piece(x)
                    + history_pieces(rest)));
                k = i + 11;
            },
        }
    }
}

/// Writes a conversation in its saved form: messages of the user and replies,
/// each between its marker and the end marker; other messages are left out.
pub fn render_history(messages: &[ChatMessage]) -> (s: String)
    ensures
        s@ == history_text(message_views(messages@)),
{
    let mut v: Vec<char> = Vec::new();
    let mut i: usize = 0;
    while i < messages.len()
        invariant
            i <= messages.len(),
            v@ == history_text(message_views(messages@).take(i as int)),
        decreases messages.len() - i,
    {
        let m = &messages[i];
        let ghost before = v@;
        let is_user = crate::text::str_eq(m.role.as_str(), "user");
        let is_assistant = crate::text::str_eq(m.role.as_str(), "assistant");
        if is_user || is_assistant {
            if is_user {
                push_str(&mut v, "--- USER ---\n");
            } else {
                push_str(&mut v, "--- ASSISTANT ---\n");
            }
            match &m.content {
                Some(c) => push_str(&mut v, c.as_str()),
                None => {},
            }
            push_str(&mut v, "\n--- END ---\n\n");
        }
        proof {
            let t = message_views(messages@).take(i + 1);
            assert(t.drop_last() =~= message_views(messages@).take(i as int));
            assert(t.last() == m@);
            reveal_strlit("--- USER ---\n");
            reveal_strlit("--- USER ---");
            reveal_strlit("--- ASSISTANT ---\n");
            reveal_strlit("--- ASSISTANT ---");
            reveal_strlit("\n--- END ---\n\n");
            reveal_strlit("--- END ---");
            reveal_strlit("\n");
            reveal_strlit("\n\n");
            assert(v@ =~= history_text(t));
        }
        i = i + 1;
    }
    assert(message_views(messages@).take(messages.len() as int) =~= message_views(messages@));
    string_of(v.as_slice())
}

} // verus!

verus! {

// ---------------------------------------------------------------------------
// Reading back what was written
// ---------------------------------------------------------------------------

/// A message that survives saving and reading back unchanged: from the user
/// or a reply, with a text that is not empty, has no surrounding whitespace
/// and holds no end marker, and with nothing else.
pub open spec fn saves_exactly(m: ChatMessageView) -> bool {
    &&& m.role == "user"@ || m.role == "assistant"@
    &&& m.content matches Some(c) && c.len() > 0 && trim(c) == c && !crate::text::contains(
        c,
        end_marker(),
    )
    &&& m.tool_calls is None
    &&& m.tool_call_id is None
    &&& m.name is None
}

/// Every character is a newline.
spec fn all_newlines(w: Seq<char>) -> bool {
    forall|i: int| 0 <= i < w.len() ==> w[i] == '\n'
}

proof fn lemma_trim_start_ws_prefix(w: Seq<char>, t: Seq<char>)
    requires
        all_newlines(w),
    ensures
        crate::text::trim_start(w + t) == crate::text::trim_start(t),
    decreases w.len(),
{
    if w.len() > 0 {
        assert((w + t).drop_first() =~= w.drop_first() + t);
        lemma_trim_start_ws_prefix(w.drop_first(), t);
    } else {
        assert(w + t =~= t);
    }
}

proof fn lemma_trim_end_ws_suffix(t: Seq<char>, w: Seq<char>)
    requires
        all_newlines(w),
    ensures
        crate::text::trim_end(t + w) == crate::text::trim_end(t),
    decreases w.len(),
{
    if w.len() > 0 {
        assert((t + w).drop_last() =~= t + w.drop_last());
        lemma_trim_end_ws_suffix(t, w.drop_last());
    } else {
        assert(t + w =~= t);
    }
}

proof fn lemma_trim_start_len(s: Seq<char>)
    ensures
        crate::text::trim_start(s).len() <= s.len(),
    decreases s.len(),
{
    if s.len() > 0 && crate::text::is_ws(s[0]) {
        lemma_trim_start_len(s.drop_first());
    }
}

proof fn lemma_trim_end_len(s: Seq<char>)
    ensures
        crate::text::trim_end(s).len() <= s.len(),
    decreases s.len(),
{
    if s.len() > 0 && crate::text::is_ws(s.last()) {
        lemma_trim_end_len(s.drop_last());
    }
}

/// A trimmed, non-empty text neither starts nor ends with whitespace.
proof fn lemma_trimmed_ends(c: Seq<char>)
    requires
        c.len() > 0,
        trim(c) == c,
    ensures
        !crate::text::is_ws(c[0]),
        !crate::text::is_ws(c.last()),
{
    if crate::text::is_ws(c[0]) {
        lemma_trim_start_len(c.drop_first());
        lemma_trim_end_len(crate::text::trim_start(c));
    }
    assert(crate::text::trim_start(c) == c);
    if crate::text::is_ws(c.last()) {
        lemma_trim_end_len(c.drop_last());
    }
}

/// What `history_text` gives for a sequence, built from the front.
proof fn lemma_history_text_cons(m: ChatMessageView, r: Seq<ChatMessageView>)
    ensures
        history_text(seq![m] + r) == history_block(m) + history_text(r),
    decreases r.len(),
{
    if r.len() == 0 {
        assert(seq![m] + r =~= seq![m]);
        assert(seq![m].drop_last() =~= Seq::<ChatMessageView>::empty());
        assert(seq![m].last() == m);
        assert(history_text(Seq::<ChatMessageView>::empty()) == Seq::<char>::empty());
        assert(history_block(m) + Seq::<char>::empty() =~= history_block(m));
        assert(Seq::<char>::empty() + history_block(m) =~= history_block(m));
    } else {
        assert((seq![m] + r).drop_last() =~= seq![m] + r.drop_last());
        assert((seq![m] + r).last() == r.last());
        lemma_history_text_cons(m, r.drop_last());
        assert(history_block(m) + history_text(r.drop_last()) + history_block(r.last())
            =~= history_block(m) + (history_text(r.drop_last()) + history_block(r.last())));
    }
}

proof fn lemma_occ_char(s: Seq<char>, d: Seq<char>, p: int, q: int)
    requires
        crate::text::occurs_at(s, d, p),
        p <= q < p + d.len(),
    ensures
        s[q] == d[q - p],
{
    assert(s.subrange(p, p + d.len())[q - p] == s[q]);
}

/// The end marker does not occur in either start marker.
proof fn lemma_markers_without_end()
    ensures
        !crate::text::contains(user_marker(), end_marker()),
        !crate::text::contains(assistant_marker(), end_marker()),
        end_marker().len() == 11,
        forall|i: int| 0 <= i < 11 ==> end_marker()[i] != '\n',
        user_marker().len() == 12,
        assistant_marker().len() == 17,
        user_marker()[0] == '-',
        assistant_marker()[0] == '-',
        !crate::text::starts_with(assistant_marker(), user_marker()),
        "user"@ != "assistant"@,
{
    reveal_strlit("--- END ---");
    reveal_strlit("--- USER ---");
    reveal_strlit("--- ASSISTANT ---");
    reveal_strlit("user");
    reveal_strlit("assistant");
    let d = end_marker();
    let u = user_marker();
    let a = assistant_marker();
    assert forall|p: int| !crate::text::occurs_at(u, d, p) by {
        if 0 <= p && p + 11 <= 12 {
            if p == 0 {
                assert(u.subrange(0, 11)[4] != d[4]);
            } else {
                assert(u.subrange(1, 12)[2] != d[2]);
            }
        }
    }
    assert forall|p: int| !crate::text::occurs_at(a, d, p) by {
        if 0 <= p && p + 11 <= 17 {
            if p == 0 {
                assert(a.subrange(0, 11)[4] != d[4]);
            } else if p == 1 {
                assert(a.subrange(1, 12)[2] != d[2]);
            } else if p == 2 {
                assert(a.subrange(2, 13)[1] != d[1]);
            } else if p == 3 {
                assert(a.subrange(3, 14)[0] != d[0]);
            } else if p == 4 {
                assert(a.subrange(4, 15)[0] != d[0]);
            } else if p == 5 {
                assert(a.subrange(5, 16)[0] != d[0]);
            } else {
                assert(a.subrange(6, 17)[0] != d[0]);
            }
        }
    }
    assert(a.take(12)[4] != u[4]);
    assert("user"@.len() != "assistant"@.len());
}

/// The first end marker of a saved block is the one that closes it.
proof fn lemma_first_end(w: Seq<char>, h: Seq<char>, c: Seq<char>, y: Seq<char>)
    requires
        all_newlines(w),
        !crate::text::contains(h, end_marker()),
        !crate::text::contains(c, end_marker()),
    ensures
        ({
            let x = w + h + "\n"@ + c + "\n"@;
            find_from(x + end_marker() + y, end_marker(), 0) == Some(x.len() as int)
        }),
{
    lemma_markers_without_end();
    reveal_strlit("\n");
    let d = end_marker();
    let x = w + h + "\n"@ + c + "\n"@;
    let s = x + d + y;
    let nh: int = (w.len() + h.len()) as int;
    assert(s.subrange(x.len() as int, x.len() + 11int) =~= d);
    assert forall|p: int| 0 <= p < x.len() implies !crate::text::occurs_at(s, d, p) by {
        if crate::text::occurs_at(s, d, p) {
            if p < w.len() {
                lemma_occ_char(s, d, p, p);
                assert(s[p] == w[p]);
            } else if p < nh {
                if p + 11 > nh {
                    lemma_occ_char(s, d, p, nh);
                    assert(s[nh] == '\n');
                } else {
                    assert(h.subrange(p - w.len(), p - w.len() + 11) =~= s.subrange(p, p + 11));
                    assert(crate::text::occurs_at(h, d, p - w.len()));
                }
            } else if p == nh {
                lemma_occ_char(s, d, p, p);
                assert(s[p] == '\n');
            } else {
                if p + 11 > x.len() - 1 {
                    lemma_occ_char(s, d, p, x.len() - 1);
                    assert(s[x.len() - 1] == '\n');
                } else {
                    assert(c.subrange(p - nh - 1, p - nh - 1 + 11) =~= s.subrange(p, p + 11));
                    assert(crate::text::occurs_at(c, d, p - nh - 1));
                }
            }
        }
    }
    crate::text::lemma_find_from(s, d, 0);
    if find_from(s, d, 0) is None {
        assert(crate::text::occurs_at(s, d, x.len() as int));
    } else {
        let j = find_from(s, d, 0)->0;
        if j > x.len() {
            assert(crate::text::occurs_at(s, d, x.len() as int));
        }
    }
}

/// What a saved block's piece gives back: the message itself.
proof fn lemma_piece_of_block(w: Seq<char>, m: ChatMessageView)
    requires
        all_newlines(w),
        saves_exactly(m),
    ensures
        ({
            let h = if m.role == "user"@ {
                user_marker()
            } else {
                assistant_marker()
            };
            history_piece(w + h + "\n"@ + m.content->0 + "\n"@) == seq![m]
        }),
{
    lemma_markers_without_end();
    reveal_strlit("\n");
    let c = m.content->0;
    lemma_trimmed_ends(c);
    let h = if m.role == "user"@ {
        user_marker()
    } else {
        assistant_marker()
    };
    let core = h + "\n"@ + c;
    let x = w + h + "\n"@ + c + "\n"@;
    assert(x =~= w + (core + "\n"@));
    lemma_trim_start_ws_prefix(w, core + "\n"@);
    assert(crate::text::trim_start(core + "\n"@) == core + "\n"@);
    assert(all_newlines("\n"@));
    lemma_trim_end_ws_suffix(core, "\n"@);
    assert(core.last() == c.last());
    assert(crate::text::trim_end(core) == core);
    assert(trim(x) == core);
    let r = "\n"@ + c;
    assert(core.take(h.len() as int) =~= h);
    assert(core.skip(h.len() as int) =~= r);
    lemma_trim_start_ws_prefix("\n"@, c);
    assert(crate::text::trim_start(c) == c);
    assert(trim(r) == c);
    if m.role == "user"@ {
        assert(strip_prefix(core, user_marker()) == Some(r));
        assert(seq![text_message("user"@, Some(c))] =~= seq![m]);
    } else {
        assert(!crate::text::starts_with(core, user_marker())) by {
            assert(core.take(12) =~= assistant_marker().take(12));
        }
        assert(strip_prefix(core, assistant_marker()) == Some(r));
        assert(seq![text_message("assistant"@, Some(c))] =~= seq![m]);
    }
}

proof fn lemma_parse_history_text(w: Seq<char>, ms: Seq<ChatMessageView>)
    requires
        all_newlines(w),
        w.len() <= 2,
        forall|i: int| 0 <= i < ms.len() ==> saves_exactly(#[trigger] ms[i]),
    ensures
        parse_history_text(w + history_text(ms)) == ms,
    decreases ms.len(),
{
    lemma_markers_without_end();
    reveal_strlit("\n");
    reveal_strlit("\n\n");
    let d = end_marker();
    if ms.len() == 0 {
        let s = w + history_text(ms);
        assert(s =~= w);
        assert(find_from(w, d, 0) is None);
        assert(split_by(w, d) == seq![w]);
        lemma_trim_start_ws_prefix(w, Seq::<char>::empty());
        assert(w + Seq::<char>::empty() =~= w);
        assert(trim(w).len() == 0);
        assert(history_piece(w) =~= Seq::<ChatMessageView>::empty());
        assert(seq![w].drop_first() =~= Seq::<Seq<char>>::empty());
        assert(seq![w][0] == w);
        assert(history_pieces(Seq::<Seq<char>>::empty()) =~= Seq::<ChatMessageView>::empty());
        assert(history_pieces(seq![w]) =~= Seq::<ChatMessageView>::empty());
        assert(ms =~= Seq::<ChatMessageView>::empty());
    } else {
        let m = ms[0];
        let rest = ms.drop_first();
        assert(ms =~= seq![m] + rest);
        lemma_history_text_cons(m, rest);
        assert(saves_exactly(m));
        let c = m.content->0;
        let h = if m.role == "user"@ {
            user_marker()
        } else {
            assistant_marker()
        };
        let x = w + h + "\n"@ + c + "\n"@;
        let y = "\n\n"@ + history_text(rest);
        assert(history_block(m) =~= h + "\n"@ + c + "\n"@ + d + "\n\n"@);
        let s = w + history_text(ms);
        assert(s =~= x + d + y);
        lemma_first_end(w, h, c, y);
        assert(s.take(x.len() as int) =~= x);
        assert(s.skip(x.len() + 11int) =~= y);
        assert(split_by(s, d) == seq![x] + split_by(y, d));
        assert((seq![x] + split_by(y, d)).drop_first() =~= split_by(y, d));
        lemma_piece_of_block(w, m);
        assert forall|i: int| 0 <= i < rest.len() implies saves_exactly(#[trigger] rest[i]) by {
            assert(rest[i] == ms[i + 1]);
        }
        assert(all_newlines("\n\n"@));
        lemma_parse_history_text("\n\n"@, rest);
        assert(parse_history_text(s) == seq![m] + rest);
    }
}

/// Reading back a saved conversation gives the conversation, as long as each
/// of its messages survives saving (`saves_exactly`).
pub proof fn lemma_history_round_trip(ms: Seq<ChatMessageView>)
    requires
        forall|i: int| 0 <= i < ms.len() ==> saves_exactly(#[trigger] ms[i]),
    ensures
        parse_history_text(history_text(ms)) == ms,
{
    assert(all_newlines(Seq::<char>::empty()));
    lemma_parse_history_text(Seq::<char>::empty(), ms);
    assert(Seq::<char>::empty() + history_text(ms) =~= history_text(ms));
}


/// The text a message is saved with: its content, or nothing.
pub open spec fn saved_text(m: ChatMessageView) -> Seq<char> {
    match m.content {
        Some(c) => c,
        None => Seq::empty(),
    }
}

/// Whether a message is one that the history keeps: from the user or a reply.
pub open spec fn saved_role(m: ChatMessageView) -> bool {
    m.role == "user"@ || m.role == "assistant"@
}

/// What reading back keeps of one message: a message of the user or a reply
/// whose text is not blank comes back with its text trimmed and nothing
/// else; any other message is gone.
pub open spec fn kept_message(m: ChatMessageView) -> Seq<ChatMessageView> {
    if saved_role(m) && trim(saved_text(m)).len() > 0 {
        seq![text_message(m.role, Some(trim(saved_text(m))))]
    } else {
        Seq::empty()
    }
}

/// What reading back keeps of a conversation, in order.
pub open spec fn kept(ms: Seq<ChatMessageView>) -> Seq<ChatMessageView>
    decreases ms.len(),
{
    if ms.len() == 0 {
        Seq::empty()
    } else {
        kept_message(ms[0]) + kept(ms.drop_first())
    }
}

/// The end of `a + c` trimmed: `a` and the trimmed end of `c` when that is not
/// empty, else the trimmed end of `a`.
proof fn lemma_trim_end_concat(a: Seq<char>, c: Seq<char>)
    ensures
        crate::text::trim_end(a + c) == if crate::text::trim_end(c).len() > 0 {
            a + crate::text::trim_end(c)
        } else {
            crate::text::trim_end(a)
        },
    decreases c.len(),
{
    if c.len() == 0 {
        assert(a + c =~= a);
    } else if crate::text::is_ws(c.last()) {
        assert((a + c).drop_last() =~= a + c.drop_last());
        assert((a + c).last() == c.last());
        lemma_trim_end_concat(a, c.drop_last());
    } else {
        assert((a + c).last() == c.last());
    }
}

proof fn lemma_trim_end_idempotent(c: Seq<char>)
    ensures
        crate::text::trim_end(crate::text::trim_end(c)) == crate::text::trim_end(c),
    decreases c.len(),
{
    if c.len() > 0 && crate::text::is_ws(c.last()) {
        lemma_trim_end_idempotent(c.drop_last());
    }
}

/// Trimming the start and the end may be done in either order.
proof fn lemma_trim_commutes(s: Seq<char>)
    ensures
        crate::text::trim_start(crate::text::trim_end(s)) == crate::text::trim_end(
            crate::text::trim_start(s),
        ),
    decreases s.len(),
{
    if s.len() > 0 {
        let s0 = seq![s[0]];
        let t = s.drop_first();
        assert(s =~= s0 + t);
        lemma_trim_end_concat(s0, t);
        if crate::text::is_ws(s[0]) {
            lemma_trim_commutes(t);
            assert(crate::text::trim_end(s0) == crate::text::trim_end(s0.drop_last()));
            assert(s0.drop_last() =~= Seq::<char>::empty());
            let te = crate::text::trim_end(t);
            if te.len() > 0 {
                assert((s0 + te).drop_first() =~= te);
            }
        } else {
            assert(crate::text::trim_end(s0) == s0);
            let te = crate::text::trim_end(s);
            assert(te[0] == s[0]);
        }
    }
}

/// What the piece of a saved block gives back: the message as `kept_message`
/// says.
proof fn lemma_piece_of_any_block(w: Seq<char>, m: ChatMessageView)
    requires
        all_newlines(w),
        saved_role(m),
    ensures
        ({
            let h = if m.role == "user"@ {
                user_marker()
            } else {
                assistant_marker()
            };
            history_piece(w + h + "\n"@ + saved_text(m) + "\n"@) == kept_message(m)
        }),
{
    lemma_markers_without_end();
    reveal_strlit("\n");
    reveal_strlit("--- USER ---");
    reveal_strlit("--- ASSISTANT ---");
    let c = saved_text(m);
    let te = crate::text::trim_end(c);
    let h = if m.role == "user"@ {
        user_marker()
    } else {
        assistant_marker()
    };
    let nl = "\n"@;
    let x = w + h + nl + c + nl;
    let body = h + nl + c;
    assert(x =~= w + (body + nl));
    lemma_trim_start_ws_prefix(w, body + nl);
    assert((body + nl)[0] == h[0]);
    assert(crate::text::trim_start(body + nl) == body + nl);
    assert(all_newlines(nl));
    lemma_trim_end_ws_suffix(body, nl);
    lemma_trim_end_concat(h + nl, c);
    lemma_trim_end_ws_suffix(h, nl);
    assert(!crate::text::is_ws(h.last()));
    assert(crate::text::trim_end(h) == h);
    let core = if te.len() > 0 {
        h + nl + te
    } else {
        h
    };
    assert(body =~= (h + nl) + c);
    assert(trim(x) == core);
    let r = if te.len() > 0 {
        nl + te
    } else {
        Seq::<char>::empty()
    };
    assert(core.take(h.len() as int) =~= h);
    assert(core.skip(h.len() as int) =~= r);
    lemma_trim_commutes(c);
    lemma_trim_end_idempotent(c);
    if te.len() > 0 {
        lemma_trim_start_ws_prefix(nl, te);
        lemma_trim_commutes(te);
        assert(trim(r) == trim(c));
    } else {
        assert(crate::text::trim_start(te) == te);
        assert(trim(r) == trim(c));
    }
    if m.role == "user"@ {
        assert(strip_prefix(core, user_marker()) == Some(r));
    } else {
        assert(!crate::text::starts_with(core, user_marker())) by {
            assert(core.take(12) =~= assistant_marker().take(12));
        }
        assert(strip_prefix(core, assistant_marker()) == Some(r));
    }
}

proof fn lemma_parse_any_history_text(w: Seq<char>, ms: Seq<ChatMessageView>)
    requires
        all_newlines(w),
        forall|i: int|
            0 <= i < ms.len() && saved_role(#[trigger] ms[i]) ==> !crate::text::contains(
                saved_text(ms[i]),
                end_marker(),
            ),
    ensures
        parse_history_text(w + history_text(ms)) == kept(ms),
    decreases ms.len(),
{
    lemma_markers_without_end();
    reveal_strlit("\n");
    reveal_strlit("\n\n");
    let d = end_marker();
    if ms.len() == 0 {
        let s = w + history_text(ms);
        assert(s =~= w);
        assert(find_from(w, d, 0) is None) by {
            crate::text::lemma_find_from(w, d, 0);
            if find_from(w, d, 0) is Some {
                let j = find_from(w, d, 0)->0;
                lemma_occ_char(w, d, j, j);
            }
        }
        assert(split_by(w, d) == seq![w]);
        lemma_trim_start_ws_prefix(w, Seq::<char>::empty());
        assert(w + Seq::<char>::empty() =~= w);
        assert(trim(w).len() == 0);
        assert(history_piece(w) =~= Seq::<ChatMessageView>::empty());
        assert(seq![w].drop_first() =~= Seq::<Seq<char>>::empty());
        assert(seq![w][0] == w);
        assert(history_pieces(Seq::<Seq<char>>::empty()) =~= Seq::<ChatMessageView>::empty());
        assert(history_pieces(seq![w]) =~= Seq::<ChatMessageView>::empty());
    } else {
        let m = ms[0];
        let rest = ms.drop_first();
        assert(ms =~= seq![m] + rest);
        lemma_history_text_cons(m, rest);
        assert forall|i: int|
            0 <= i < rest.len() && saved_role(#[trigger] rest[i]) implies !crate::text::contains(
            saved_text(rest[i]),
            end_marker(),
        ) by {
            assert(rest[i] == ms[i + 1]);
        }
        if !saved_role(m) {
            assert(history_block(m) =~= Seq::<char>::empty());
            assert(w + history_text(ms) =~= w + history_text(rest));
            lemma_parse_any_history_text(w, rest);
            assert(kept_message(m) =~= Seq::<ChatMessageView>::empty());
            assert(kept(ms) =~= kept(rest));
        } else {
            let c = saved_text(m);
            let h = if m.role == "user"@ {
                user_marker()
            } else {
                assistant_marker()
            };
            let x = w + h + "\n"@ + c + "\n"@;
            let y = "\n\n"@ + history_text(rest);
            assert(history_block(m) =~= h + "\n"@ + c + "\n"@ + d + "\n\n"@);
            let s = w + history_text(ms);
            assert(s =~= x + d + y);
            lemma_first_end(w, h, c, y);
            assert(s.take(x.len() as int) =~= x);
            assert(s.skip(x.len() + 11int) =~= y);
            assert(split_by(s, d) == seq![x] + split_by(y, d));
            assert((seq![x] + split_by(y, d)).drop_first() =~= split_by(y, d));
            lemma_piece_of_any_block(w, m);
            assert(all_newlines("\n\n"@));
            lemma_parse_any_history_text("\n\n"@, rest);
            assert(parse_history_text(s) == kept_message(m) + kept(rest));
        }
    }
}

/// Reading back a saved conversation gives its messages of the user and its
/// replies, in order, each with its text trimmed and nothing else, those with
/// a blank or absent text left out; every other message is left out. This
/// holds whenever no saved text holds the end marker.
pub proof fn lemma_history_reads_back(ms: Seq<ChatMessageView>)
    requires
        forall|i: int|
            0 <= i < ms.len() && saved_role(#[trigger] ms[i]) ==> !crate::text::contains(
                saved_text(ms[i]),
                end_marker(),
            ),
    ensures
        parse_history_text(history_text(ms)) == kept(ms),
{
    assert(all_newlines(Seq::<char>::empty()));
    lemma_parse_any_history_text(Seq::<char>::empty(), ms);
    assert(Seq::<char>::empty() + history_text(ms) =~= history_text(ms));
}

} // verus!
