//! The local routing rules: how strongly a captured snippet points at each
//! ongoing matter, which matter it is filed under, which todos it closes, and
//! what new matter it suggests otherwise.
//!
//! Scores are in hundredths: a window that names a matter's contact adds 90,
//! a snippet that names it adds 50, and so on.
use vstd::prelude::*;
use crate::text::{
    contains, contains_exec, trim, trim_vec, split_by, split_chars, views, lemma_split_nonempty,
    sub_vec,
};
use crate::lits::chars_are;
use crate::words::{stop_words, stop_words_list, is_one_of};
use crate::seqs::keep;
use crate::models::{
    Matter, TodoItem, MatterContextWithTodos, CandidateMatter, CandidateView, candidate_views,
    TodoUpdateSuggestion, UpdateView, update_views, SuggestedMatter, SuggestionView,
};
use crate::words::{finish_words, finish_words_list, any_in, contains_any};
use crate::text::{from_chars, take_chars, take_chars_vec, append_slice, to_chars};
use crate::lits::{work, life, high, medium, lit_work, lit_life, lit_high, lit_medium};

verus! {

/// The two-character windows of `s`, in order (`windows(2)`).
pub open spec fn bigrams(s: Seq<char>) -> Seq<Seq<char>> {
    if s.len() < 2 {
        Seq::empty()
    } else {
        Seq::new((s.len() - 1) as nat, |i: int| s.subrange(i, i + 2))
    }
}

/// Whether a two-character term tells matters apart.
pub open spec fn distinctive() -> spec_fn(Seq<char>) -> bool {
    |w: Seq<char>| !stop_words().contains(w)
}

/// The distinctive terms of `s`: its two-character windows that are not
/// stop words, repeats kept.
pub open spec fn distinct_terms(s: Seq<char>) -> Seq<Seq<char>> {
    keep(bigrams(s), distinctive())
}

/// How many of `terms` occur in `hay` (a term listed twice counts twice).
pub open spec fn hits(terms: Seq<Seq<char>>, hay: Seq<char>) -> nat
    decreases terms.len(),
{
    if terms.len() == 0 {
        0
    } else {
        hits(terms.drop_last(), hay) + if contains(hay, terms.last()) {
            1nat
        } else {
            0nat
        }
    }
}

/// Whether some of `terms` occurs in `hay`.
pub open spec fn some_hit(terms: Seq<Seq<char>>, hay: Seq<char>) -> bool {
    hits(terms, hay) > 0
}

proof fn lemma_hits_bound(terms: Seq<Seq<char>>, hay: Seq<char>)
    ensures
        hits(terms, hay) <= terms.len(),
    decreases terms.len(),
{
    if terms.len() > 0 {
        lemma_hits_bound(terms.drop_last(), hay);
    }
}

/// The distinctive terms of `s`.
pub fn distinct_terms_vec(s: &[char], stops: &Vec<Vec<char>>) -> (r: Vec<Vec<char>>)
    requires
        views(stops@) == stop_words(),
    ensures
        views(r@) == distinct_terms(s@),
        r@.len() <= s@.len(),
{
    let mut out: Vec<Vec<char>> = Vec::new();
    if s.len() < 2 {
        assert(views(out@) =~= distinct_terms(s@));
        return out;
    }
    let ghost bg = bigrams(s@);
    let n = s.len() - 1;
    let mut i: usize = 0;
    assert(bg.take(0) =~= Seq::<Seq<char>>::empty());
    while i < n
        invariant
            s@.len() >= 2,
            n == s@.len() - 1,
            n + 1 == s.len(),
            views(stops@) == stop_words(),
            i <= n,
            bg == bigrams(s@),
            bg.len() == n,
            views(out@) == keep(bg.take(i as int), distinctive()),
            out@.len() <= i,
        decreases n - i,
    {
        let w = sub_vec(s, i, i + 2);
        assert(bg.take(i + 1).drop_last() =~= bg.take(i as int));
        assert(bg.take(i + 1).last() == w@);
        if !is_one_of(w.as_slice(), stops) {
            out.push(w);
            assert(views(out@) =~= keep(bg.take(i as int), distinctive()).push(w@));
        }
        i = i + 1;
    }
    assert(bg.take(n as int) =~= bg);
    out
}

/// Counts `hits(views(terms@), hay@)`.
pub fn count_hits(terms: &Vec<Vec<char>>, hay: &[char]) -> (r: u64)
    ensures
        r == hits(views(terms@), hay@),
        r <= terms@.len(),
{
    let ghost tv = views(terms@);
    let mut n: u64 = 0;
    let mut i: usize = 0;
    while i < terms.len()
        invariant
            i <= terms@.len(),
            tv == views(terms@),
            n == hits(tv.take(i as int), hay@),
            n <= i,
        decreases terms.len() - i,
    {
        assert(tv.take(i + 1).drop_last() =~= tv.take(i as int));
        proof {
            lemma_hits_bound(tv.take(i as int), hay@);
        }
        if contains_exec(hay, terms[i].as_slice()) {
            n = n + 1;
        }
        i = i + 1;
    }
    assert(tv.take(terms@.len() as int) =~= tv);
    n
}

/// The characters that separate a matter's contacts.
pub open spec fn contact_seps() -> Seq<char> {
    seq![',', '，', '、', ';', '；', ' ']
}

/// Whether a piece of text is non-empty.
pub open spec fn nonempty() -> spec_fn(Seq<char>) -> bool {
    |p: Seq<char>| p.len() > 0
}

/// A matter's contacts: the trimmed, non-empty pieces of its contact list.
pub open spec fn contacts_of(rc: Seq<char>) -> Seq<Seq<char>> {
    keep(split_by(rc, contact_seps()).map_values(|p: Seq<char>| trim(p)), nonempty())
}

/// What a matter's contacts add to its score: 90 for the first contact the
/// window names or that names the window (and none further), 50 for each
/// contact before it that the snippet names.
pub open spec fn contact_score(cs: Seq<Seq<char>>, clean: Seq<char>, win: Seq<char>) -> nat
    decreases cs.len(),
{
    if cs.len() == 0 {
        0
    } else if win.len() > 0 && (contains(win, cs[0]) || contains(cs[0], win)) {
        90
    } else {
        (if contains(clean, cs[0]) {
            50nat
        } else {
            0nat
        }) + contact_score(cs.drop_first(), clean, win)
    }
}

/// `"微信"`
pub open spec fn wechat_word() -> Seq<char> {
    seq!['微', '信']
}

/// `"未知应用"`
pub open spec fn unknown_app_word() -> Seq<char> {
    seq!['未', '知', '应', '用']
}

/// Whether a window title names a chat: not empty, and not just the
/// messenger or an unknown application.
pub open spec fn window_usable(win: Seq<char>) -> bool {
    win.len() > 0 && win != wechat_word() && win != unknown_app_word()
}

/// What the window title adds to a matter's score.
pub open spec fn window_score(title: Seq<char>, win: Seq<char>) -> nat {
    if !window_usable(win) {
        0
    } else if win == title {
        90
    } else if contains(win, title) || contains(title, win) {
        80
    } else {
        45 * hits(distinct_terms(title), win)
    }
}

/// What the snippet adds to a matter's score through the matter's title.
pub open spec fn text_score(title: Seq<char>, clean: Seq<char>) -> nat {
    if contains(clean, title) {
        65
    } else {
        35 * hits(distinct_terms(title), clean)
    }
}

/// How strongly the trimmed snippet `clean`, seen in window `win`, points at
/// matter `m`.
pub open spec fn matter_score(m: Matter, clean: Seq<char>, win: Seq<char>) -> nat {
    (if trim(m.related_contacts@).len() > 0 {
        contact_score(contacts_of(m.related_contacts@), clean, win)
    } else {
        0
    }) + window_score(m.title@, win) + text_score(m.title@, clean) + (if m.overview@.len() > 0
        && contains(clean, m.overview@) {
        40nat
    } else {
        0nat
    })
}

/// A window that names one of the contacts, or is named by one, earns at
/// least 90: whatever stands before that contact in the list only adds.
pub proof fn lemma_contact_in_window(cs: Seq<Seq<char>>, clean: Seq<char>, win: Seq<char>, k: int)
    requires
        win.len() > 0,
        0 <= k < cs.len(),
        contains(win, cs[k]) || contains(cs[k], win),
    ensures
        contact_score(cs, clean, win) >= 90,
    decreases k,
{
    if k > 0 && !(contains(win, cs[0]) || contains(cs[0], win)) {
        assert(cs.drop_first()[k - 1] == cs[k]);
        lemma_contact_in_window(cs.drop_first(), clean, win, k - 1);
    }
}

/// A matter with a contact list scores at least 90 when the trimmed window
/// title names a chat and contains one of its contacts, or is contained in
/// one.
pub proof fn lemma_contact_window_score(m: Matter, clean: Seq<char>, win: Seq<char>, k: int)
    requires
        trim(m.related_contacts@).len() > 0,
        window_usable(win),
        0 <= k < contacts_of(m.related_contacts@).len(),
        contains(win, contacts_of(m.related_contacts@)[k]) || contains(contacts_of(m.related_contacts@)[k], win),
    ensures
        matter_score(m, clean, win) >= 90,
{
    lemma_contact_in_window(contacts_of(m.related_contacts@), clean, win, k);
}

/// The contacts of a contact list.
pub fn contacts_vec(rc: &[char]) -> (r: Vec<Vec<char>>)
    ensures
        views(r@) == contacts_of(rc@),
        r@.len() <= split_by(rc@, contact_seps()).len(),
{
    let seps: [char; 6] = [',', '，', '、', ';', '；', ' '];
    assert(seps@ == contact_seps());
    let pieces = split_chars(rc, &seps);
    let ghost tp = split_by(rc@, contact_seps()).map_values(|p: Seq<char>| trim(p));
    let mut out: Vec<Vec<char>> = Vec::new();
    let mut i: usize = 0;
    assert(tp.take(0) =~= Seq::<Seq<char>>::empty());
    while i < pieces.len()
        invariant
            i <= pieces@.len(),
            views(pieces@) == split_by(rc@, contact_seps()),
            tp == split_by(rc@, contact_seps()).map_values(|p: Seq<char>| trim(p)),
            views(out@) == keep(tp.take(i as int), nonempty()),
            out@.len() <= i,
        decreases pieces.len() - i,
    {
        let t = trim_vec(pieces[i].as_slice());
        assert(views(pieces@)[i as int] == pieces@[i as int]@);
        assert(tp.take(i + 1).drop_last() =~= tp.take(i as int));
        assert(tp.take(i + 1).last() == t@);
        if t.len() > 0 {
            out.push(t);
            assert(views(out@) =~= keep(tp.take(i as int), nonempty()).push(t@));
        }
        i = i + 1;
    }
    assert(tp.take(pieces@.len() as int) =~= tp);
    out
}

/// Computes `contact_score(views(cs@), clean@, win@)`.
pub fn contact_score_exec(cs: &Vec<Vec<char>>, clean: &[char], win: &[char]) -> (r: u128)
    ensures
        r == contact_score(views(cs@), clean@, win@),
        r <= 90 + 50 * cs@.len(),
{
    let ghost cv = views(cs@);
    let mut acc: u128 = 0;
    let mut k: usize = 0;
    assert(cv.skip(0) =~= cv);
    while k < cs.len()
        invariant
            k <= cs@.len(),
            cv == views(cs@),
            acc + contact_score(cv.skip(k as int), clean@, win@) == contact_score(cv, clean@, win@),
            acc <= 50 * k,
        decreases cs.len() - k,
    {
        let c = cs[k].as_slice();
        assert(cv.skip(k as int)[0] == c@);
        assert(cv.skip(k as int).drop_first() =~= cv.skip(k + 1));
        if win.len() > 0 && (contains_exec(win, c) || contains_exec(c, win)) {
            return acc + 90;
        }
        if contains_exec(clean, c) {
            acc = acc + 50;
        }
        k = k + 1;
    }
    acc
}

/// Whether the window title `win` names a chat (see `window_usable`).
pub fn window_usable_exec(win: &[char]) -> (r: bool)
    ensures
        r == window_usable(win@),
{
    let wx: [char; 2] = ['微', '信'];
    let un: [char; 4] = ['未', '知', '应', '用'];
    assert(wx@ == wechat_word());
    assert(un@ == unknown_app_word());
    win.len() > 0 && !chars_are(win, &wx) && !chars_are(win, &un)
}

/// Computes `matter_score(*m, clean@, win@)`.
pub fn score_matter(m: &Matter, clean: &[char], win: &[char], stops: &Vec<Vec<char>>) -> (r: u128)
    requires
        views(stops@) == stop_words(),
    ensures
        r == matter_score(*m, clean@, win@),
{
    let rc = crate::text::to_chars(m.related_contacts.as_str());
    let title = crate::text::to_chars(m.title.as_str());
    let overview = crate::text::to_chars(m.overview.as_str());
    let mut score: u128 = 0;
    let rc_trim = trim_vec(rc.as_slice());
    if rc_trim.len() > 0 {
        let cs = contacts_vec(rc.as_slice());
        proof {
            crate::text::lemma_split_len(rc@, contact_seps());
        }
        score = contact_score_exec(&cs, clean, win);
    }
    assert(score <= 90 + 50 * 0x1_0000_0000_0000_0000);
    let terms = distinct_terms_vec(title.as_slice(), stops);
    if window_usable_exec(win) {
        if chars_are(win, title.as_slice()) {
            score = score + 90;
        } else if contains_exec(win, title.as_slice()) || contains_exec(title.as_slice(), win) {
            score = score + 80;
        } else {
            let h = count_hits(&terms, win);
            score = score + 45 * (h as u128);
        }
    }
    if contains_exec(clean, title.as_slice()) {
        score = score + 65;
    } else {
        let h = count_hits(&terms, clean);
        score = score + 35 * (h as u128);
    }
    if overview.len() > 0 && contains_exec(clean, overview.as_slice()) {
        score = score + 40;
    }
    score
}


/// The scores of the matters, in order.
pub open spec fn scores_of(ms: Seq<MatterContextWithTodos>, clean: Seq<char>, win: Seq<char>) -> Seq<nat> {
    ms.map_values(|c: MatterContextWithTodos| matter_score(c.matter, clean, win))
}

/// The first position with the highest positive score, if any.
pub open spec fn best_of(sc: Seq<nat>) -> Option<int>
    decreases sc.len(),
{
    if sc.len() == 0 {
        None
    } else {
        let b = best_of(sc.drop_last());
        let top = match b {
            Some(i) => sc[i],
            None => 0,
        };
        if sc.last() > top {
            Some(sc.len() - 1)
        } else {
            b
        }
    }
}

/// The highest score, or 0.
pub open spec fn top_score(sc: Seq<nat>) -> nat {
    match best_of(sc) {
        Some(i) => sc[i],
        None => 0,
    }
}

proof fn lemma_best_of(sc: Seq<nat>)
    ensures
        best_of(sc) matches Some(i) ==> 0 <= i < sc.len() && sc[i] > 0,
    decreases sc.len(),
{
    if sc.len() > 0 {
        lemma_best_of(sc.drop_last());
    }
}

/// A score as a confidence: capped at 95.
pub open spec fn confidence_of(score: nat) -> u32 {
    if score > 95 {
        95
    } else {
        score as u32
    }
}

/// The matters whose score passes 35, as candidates, in matter order.
pub open spec fn raw_candidates(ms: Seq<MatterContextWithTodos>, clean: Seq<char>, win: Seq<char>) -> Seq<
    CandidateView,
>
    decreases ms.len(),
{
    if ms.len() == 0 {
        Seq::empty()
    } else {
        let prev = raw_candidates(ms.drop_last(), clean, win);
        let m = ms.last().matter;
        let sc = matter_score(m, clean, win);
        if sc > 35 {
            prev.push(CandidateView { id: m.id@, title: m.title@, confidence: confidence_of(sc) })
        } else {
            prev
        }
    }
}

/// `x` put into `s` after every candidate at least as confident.
pub open spec fn insert_desc(s: Seq<CandidateView>, x: CandidateView) -> Seq<CandidateView>
    decreases s.len(),
{
    if s.len() == 0 {
        seq![x]
    } else if s[0].confidence >= x.confidence {
        seq![s[0]] + insert_desc(s.drop_first(), x)
    } else {
        seq![x] + s
    }
}

/// `s` sorted by falling confidence, equals kept in their order (a stable
/// sort).
pub open spec fn sort_desc(s: Seq<CandidateView>) -> Seq<CandidateView>
    decreases s.len(),
{
    if s.len() == 0 {
        Seq::empty()
    } else {
        insert_desc(sort_desc(s.drop_last()), s.last())
    }
}

proof fn lemma_insert_at(s: Seq<CandidateView>, x: CandidateView, p: int)
    requires
        0 <= p <= s.len(),
        forall|k: int| 0 <= k < p ==> s[k].confidence >= x.confidence,
        p < s.len() ==> s[p].confidence < x.confidence,
    ensures
        insert_desc(s, x) == s.take(p) + seq![x] + s.skip(p),
    decreases s.len(),
{
    if s.len() == 0 {
        assert(s.take(p) + seq![x] + s.skip(p) =~= seq![x]);
    } else if p == 0 {
        assert(s.take(p) + seq![x] + s.skip(p) =~= seq![x] + s);
    } else {
        let d = s.drop_first();
        assert forall|k: int| 0 <= k < p - 1 implies d[k].confidence >= x.confidence by {
            assert(d[k] == s[k + 1]);
        }
        lemma_insert_at(d, x, p - 1);
        assert(s.take(p) + seq![x] + s.skip(p) =~= seq![s[0]] + (d.take(p - 1) + seq![x] + d.skip(
            p - 1,
        )));
    }
}

/// Puts `x` into the confidence-sorted `v` after every candidate at least as
/// confident.
fn insert_candidate(v: &mut Vec<CandidateMatter>, x: CandidateMatter)
    ensures
        candidate_views(final(v)@) == insert_desc(candidate_views(old(v)@), x@),
{
    let ghost sv = candidate_views(v@);
    let mut p: usize = 0;
    while p < v.len() && v[p].confidence >= x.confidence
        invariant
            p <= v@.len(),
            sv == candidate_views(v@),
            forall|k: int| 0 <= k < p ==> sv[k].confidence >= x.confidence,
        decreases v.len() - p,
    {
        p = p + 1;
    }
    proof {
        lemma_insert_at(sv, x@, p as int);
    }
    let ghost xv = x@;
    v.insert(p, x);
    assert(candidate_views(v@) =~= sv.take(p as int) + seq![xv] + sv.skip(p as int));
}

/// The ranking of the matters for a snippet.
pub struct Ranking {
    /// Position of the first matter with the highest positive score.
    pub best: Option<usize>,
    /// The highest score, or 0.
    pub top: u128,
    /// The matters scoring over 35, most confident first.
    pub candidates: Vec<CandidateMatter>,
}

/// Scores every matter for the trimmed snippet `clean` seen in window `win`.
pub fn rank_matters(ms: &[MatterContextWithTodos], clean: &[char], win: &[char]) -> (r: Ranking)
    ensures
        r.best matches Some(i) ==> best_of(scores_of(ms@, clean@, win@)) == Some(i as int),
        r.best is None ==> best_of(scores_of(ms@, clean@, win@)) is None,
        r.top == top_score(scores_of(ms@, clean@, win@)),
        candidate_views(r.candidates@) == sort_desc(raw_candidates(ms@, clean@, win@)),
{
    let stops = stop_words_list();
    let mut best: Option<usize> = None;
    let mut top: u128 = 0;
    let mut cands: Vec<CandidateMatter> = Vec::new();
    let mut i: usize = 0;
    while i < ms.len()
        invariant
            i <= ms@.len(),
            views(stops@) == stop_words(),
            best matches Some(b) ==> best_of(scores_of(ms@.take(i as int), clean@, win@)) == Some(
                b as int,
            ),
            best is None ==> best_of(scores_of(ms@.take(i as int), clean@, win@)) is None,
            top == top_score(scores_of(ms@.take(i as int), clean@, win@)),
            candidate_views(cands@) == sort_desc(raw_candidates(ms@.take(i as int), clean@, win@)),
        decreases ms.len() - i,
    {
        let ghost prev = ms@.take(i as int);
        let ghost next = ms@.take(i + 1);
        assert(next.drop_last() =~= prev);
        assert(scores_of(next, clean@, win@).drop_last() =~= scores_of(prev, clean@, win@));
        proof {
            lemma_best_of(scores_of(prev, clean@, win@));
        }
        let m = &ms[i].matter;
        let sc = score_matter(m, clean, win, &stops);
        assert(scores_of(next, clean@, win@).last() == sc);
        if sc > top {
            best = Some(i);
            top = sc;
        }
        assert(next.last() == ms@[i as int]);
        let ghost raw_prev = raw_candidates(prev, clean@, win@);
        if sc > 35 {
            let conf: u32 = if sc > 95 { 95 } else { sc as u32 };
            let c = CandidateMatter { id: m.id.clone(), title: m.title.clone(), confidence: conf };
            assert(raw_candidates(next, clean@, win@) == raw_prev.push(c@));
            assert(raw_prev.push(c@).drop_last() =~= raw_prev);
            insert_candidate(&mut cands, c);
        } else {
            assert(raw_candidates(next, clean@, win@) == raw_prev);
        }
        i = i + 1;
    }
    assert(ms@.take(ms@.len() as int) =~= ms@);
    Ranking { best, top, candidates: cands }
}


/// `"CLOSE"`
pub open spec fn close_word() -> Seq<char> {
    seq!['C', 'L', 'O', 'S', 'E']
}

/// The reason given for closing a todo: `"日志表明任务已完成/提交: "` and the
/// first 20 characters of the snippet.
pub open spec fn close_reason(clean: Seq<char>) -> Seq<char> {
    seq!['日', '志', '表', '明', '任', '务', '已', '完', '成', '/', '提', '交', ':', ' ']
        + take_chars(clean, 20)
}

/// Whether pending todo `t` is closed by the snippet: some distinctive term
/// of its text occurs in the snippet, or it is its matter's only pending todo.
pub open spec fn closable(t: TodoItem, clean: Seq<char>, n: nat) -> bool {
    some_hit(distinct_terms(t.content@), clean) || n == 1
}

/// The suggestion to close todo `t`.
pub open spec fn close_view(t: TodoItem, clean: Seq<char>) -> UpdateView {
    UpdateView {
        todo_id: t.id@,
        original_content: t.content@,
        action: close_word(),
        reason: close_reason(clean),
        updated_content: None,
        updated_due_time: None,
    }
}

/// The suggestions to close the closable todos of `ts`, in order, where the
/// matter has `n` pending todos.
pub open spec fn close_list(ts: Seq<TodoItem>, clean: Seq<char>, n: nat) -> Seq<UpdateView>
    decreases ts.len(),
{
    if ts.len() == 0 {
        Seq::empty()
    } else {
        let prev = close_list(ts.drop_last(), clean, n);
        if closable(ts.last(), clean, n) {
            prev.push(close_view(ts.last(), clean))
        } else {
            prev
        }
    }
}

/// The todos of the matched matter that the snippet closes: none unless the
/// snippet holds a word that says a task is done.
pub open spec fn todo_closures(ctx: MatterContextWithTodos, clean: Seq<char>) -> Seq<UpdateView> {
    if any_in(clean, finish_words()) {
        close_list(ctx.pending_todos@, clean, ctx.pending_todos@.len())
    } else {
        Seq::empty()
    }
}

/// The string of `s`.
fn text_of(s: Seq<char>, v: &[char]) -> (r: String)
    requires
        v@ == s,
    ensures
        r@ == s,
{
    from_chars(v)
}

/// The suggestions that close todos of the matched matter `ctx`.
pub fn close_updates(ctx: &MatterContextWithTodos, clean: &[char]) -> (r: Vec<TodoUpdateSuggestion>)
    ensures
        update_views(r@) == todo_closures(*ctx, clean@),
{
    let mut out: Vec<TodoUpdateSuggestion> = Vec::new();
    let finish = finish_words_list();
    if !contains_any(clean, &finish) {
        assert(update_views(out@) =~= todo_closures(*ctx, clean@));
        return out;
    }
    let stops = stop_words_list();
    let ts = &ctx.pending_todos;
    let n = ts.len();
    let prefix: [char; 14] = ['日', '志', '表', '明', '任', '务', '已', '完', '成', '/', '提', '交', ':', ' '];
    let close: [char; 5] = ['C', 'L', 'O', 'S', 'E'];
    assert(close@ == close_word());
    let mut i: usize = 0;
    assert(ts@.take(0) =~= Seq::<TodoItem>::empty());
    while i < n
        invariant
            i <= n,
            n == ts@.len(),
            views(stops@) == stop_words(),
            close@ == close_word(),
            prefix@ + take_chars(clean@, 20) == close_reason(clean@),
            update_views(out@) == close_list(ts@.take(i as int), clean@, n as nat),
        decreases n - i,
    {
        let t = &ts[i];
        assert(ts@.take(i + 1).drop_last() =~= ts@.take(i as int));
        assert(ts@.take(i + 1).last() == *t);
        let content = to_chars(t.content.as_str());
        let terms = distinct_terms_vec(content.as_slice(), &stops);
        let h = count_hits(&terms, clean);
        if h > 0 || n == 1 {
            let mut reason_v: Vec<char> = Vec::new();
            append_slice(&mut reason_v, &prefix);
            let head = take_chars_vec(clean, 20);
            append_slice(&mut reason_v, head.as_slice());
            let u = TodoUpdateSuggestion {
                todo_id: t.id.clone(),
                original_content: t.content.clone(),
                action: from_chars(&close),
                reason: from_chars(reason_v.as_slice()),
                updated_content: None,
                updated_due_time: None,
            };
            assert(u@ == close_view(*t, clean@));
            out.push(u);
            assert(update_views(out@) =~= close_list(ts@.take(i as int), clean@, n as nat).push(
                close_view(*t, clean@),
            ));
        }
        i = i + 1;
    }
    assert(ts@.take(n as int) =~= ts@);
    out
}

/// The characters that end the first sentence of a title.
pub open spec fn title_seps() -> Seq<char> {
    seq!['。', '！', '!', '？', '?', '\n', ';', '；']
}

/// `"新事项"`
pub open spec fn new_matter_word() -> Seq<char> {
    seq!['新', '事', '项']
}

/// The title made from a text: its first sentence, trimmed; cut to 18
/// characters and `"..."` when longer than 20; `"新事项"` when empty.
pub open spec fn fallback_title(text: Seq<char>) -> Seq<char> {
    let f = trim(split_by(text, title_seps())[0]);
    if f.len() > 20 {
        f.take(18) + seq!['.', '.', '.']
    } else if f.len() == 0 {
        new_matter_word()
    } else {
        f
    }
}

/// Computes `fallback_title(text@)`.
pub fn fallback_title_vec(text: &[char]) -> (r: Vec<char>)
    ensures
        r@ == fallback_title(text@),
{
    let seps: [char; 8] = ['。', '！', '!', '？', '?', '\n', ';', '；'];
    assert(seps@ == title_seps());
    let pieces = split_chars(text, &seps);
    proof {
        lemma_split_nonempty(text@, title_seps());
    }
    assert(views(pieces@)[0] == pieces@[0]@);
    let f = trim_vec(pieces[0].as_slice());
    if f.len() > 20 {
        let mut r = sub_vec(f.as_slice(), 0, 18);
        r.push('.');
        r.push('.');
        r.push('.');
        assert(r@ =~= f@.take(18) + seq!['.', '.', '.']);
        r
    } else if f.len() == 0 {
        let r: Vec<char> = vec!['新', '事', '项'];
        r
    } else {
        f
    }
}

/// `"买"`, `"家"`, `"生活"`, `"看电影"`, `"紧急"`, `"马上"`, `"重要"`.
pub open spec fn life_words_ambiguous() -> Seq<Seq<char>> {
    seq![seq!['买'], seq!['家'], seq!['生', '活']]
}

/// The words that make a new matter part of life.
pub open spec fn life_words_new() -> Seq<Seq<char>> {
    seq![seq!['买'], seq!['家'], seq!['看', '电', '影']]
}

/// The words that make a new matter urgent.
pub open spec fn urgent_words() -> Seq<Seq<char>> {
    seq![seq!['紧', '急'], seq!['马', '上'], seq!['重', '要']]
}

/// The new matter suggested for a snippet that is not filed: `ambiguous`
/// when several matters are candidates.
pub open spec fn suggestion(clean: Seq<char>, win: Seq<char>, ambiguous: bool) -> SuggestionView {
    SuggestionView {
        title: fallback_title(clean),
        category: if any_in(clean, if ambiguous { life_words_ambiguous() } else { life_words_new() }) {
            life()
        } else {
            work()
        },
        priority: if !ambiguous && any_in(clean, urgent_words()) {
            high()
        } else {
            medium()
        },
        summary: take_chars(clean, if ambiguous { 40 } else { 50 }),
        related_contacts: if window_usable(win) {
            Some(win)
        } else {
            None
        },
    }
}

/// The list `life_words_ambiguous()`.
fn life_words_ambiguous_list() -> (r: Vec<Vec<char>>)
    ensures
        views(r@) == life_words_ambiguous(),
{
    let r: Vec<Vec<char>> = vec![vec!['买'], vec!['家'], vec!['生', '活']];
    assert(r@[0]@ =~= seq!['买']);
    assert(r@[1]@ =~= seq!['家']);
    assert(views(r@) =~= life_words_ambiguous());
    r
}

/// The list `life_words_new()`.
fn life_words_new_list() -> (r: Vec<Vec<char>>)
    ensures
        views(r@) == life_words_new(),
{
    let r: Vec<Vec<char>> = vec![vec!['买'], vec!['家'], vec!['看', '电', '影']];
    assert(r@[0]@ =~= seq!['买']);
    assert(r@[1]@ =~= seq!['家']);
    assert(views(r@) =~= life_words_new());
    r
}

/// The list `urgent_words()`.
fn urgent_words_list() -> (r: Vec<Vec<char>>)
    ensures
        views(r@) == urgent_words(),
{
    let r: Vec<Vec<char>> = vec![vec!['紧', '急'], vec!['马', '上'], vec!['重', '要']];
    assert(views(r@) =~= urgent_words());
    r
}

/// The new matter suggested for `clean` (see `suggestion`).
pub fn suggest_matter(clean: &[char], win: &[char], ambiguous: bool) -> (r: SuggestedMatter)
    ensures
        r@ == suggestion(clean@, win@, ambiguous),
{
    let life_words: Vec<Vec<char>> = if ambiguous {
        life_words_ambiguous_list()
    } else {
        life_words_new_list()
    };
    let urgent: Vec<Vec<char>> = urgent_words_list();
    let category = if contains_any(clean, &life_words) {
        from_chars(&lit_life())
    } else {
        from_chars(&lit_work())
    };
    let priority = if !ambiguous && contains_any(clean, &urgent) {
        from_chars(&lit_high())
    } else {
        from_chars(&lit_medium())
    };
    let title = fallback_title_vec(clean);
    let summary = take_chars_vec(clean, if ambiguous { 40 } else { 50 });
    let contacts = if window_usable_exec(win) {
        Some(from_chars(win))
    } else {
        None
    };
    SuggestedMatter {
        title: from_chars(title.as_slice()),
        category,
        priority,
        summary: from_chars(summary.as_slice()),
        related_contacts: contacts,
    }
}


/// The best position of a score list lies inside it.
pub proof fn lemma_best_in_range(sc: Seq<nat>)
    ensures
        best_of(sc) matches Some(i) ==> 0 <= i < sc.len(),
{
    lemma_best_of(sc);
}

} // verus!
