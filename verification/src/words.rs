//! The word lists of the local rules: words too common to tell matters
//! apart, words that say a task is done, and words that call for an action.
use vstd::prelude::*;
use crate::text::{contains, contains_exec, views};
use crate::lits::chars_are;

verus! {

/// Words shared by matters of every trade, which say nothing of which matter a text is about.
pub open spec fn stop_words() -> Seq<Seq<char>> {
    seq![
        seq!['任', '务'],
        seq!['工', '作'],
        seq!['事', '项'],
        seq!['项', '目'],
        seq!['沟', '通'],
        seq!['通', '知'],
        seq!['处', '理'],
        seq!['进', '行'],
        seq!['完', '成'],
        seq!['跟', '进'],
        seq!['汇', '报'],
        seq!['对', '接'],
        seq!['讨', '论'],
        seq!['关', '于'],
        seq!['相', '关'],
        seq!['推', '进'],
        seq!['执', '行'],
        seq!['落', '实'],
        seq!['协', '同'],
        seq!['记', '录'],
        seq!['内', '容'],
        seq!['方', '案'],
        seq!['文', '档'],
        seq!['材', '料'],
        seq!['表', '格'],
        seq!['清', '单'],
        seq!['计', '划'],
        seq!['测', '试'],
        seq!['要', '求'],
    ]
}

/// The list `stop_words()`.
pub fn stop_words_list() -> (r: Vec<Vec<char>>)
    ensures
        views(r@) == stop_words(),
{
    let r: Vec<Vec<char>> = vec![
        vec!['任', '务'],
        vec!['工', '作'],
        vec!['事', '项'],
        vec!['项', '目'],
        vec!['沟', '通'],
        vec!['通', '知'],
        vec!['处', '理'],
        vec!['进', '行'],
        vec!['完', '成'],
        vec!['跟', '进'],
        vec!['汇', '报'],
        vec!['对', '接'],
        vec!['讨', '论'],
        vec!['关', '于'],
        vec!['相', '关'],
        vec!['推', '进'],
        vec!['执', '行'],
        vec!['落', '实'],
        vec!['协', '同'],
        vec!['记', '录'],
        vec!['内', '容'],
        vec!['方', '案'],
        vec!['文', '档'],
        vec!['材', '料'],
        vec!['表', '格'],
        vec!['清', '单'],
        vec!['计', '划'],
        vec!['测', '试'],
        vec!['要', '求'],
    ];
    assert(views(r@) =~= stop_words());
    r
}

/// Words that say a task is done.
pub open spec fn finish_words() -> Seq<Seq<char>> {
    seq![
        seq!['完', '成'],
        seq!['提', '交'],
        seq!['搞', '定'],
        seq!['交', '付'],
        seq!['做', '完'],
        seq!['完', '毕'],
        seq!['解', '决'],
        seq!['已', '发'],
        seq!['发', '了'],
        seq!['上', '线'],
        seq!['通', '过'],
        seq!['定', '稿'],
        seq!['已', '办'],
        seq!['办', '结'],
        seq!['处', '理', '好'],
        seq!['已', '处', '理'],
        seq!['已', '关', '闭'],
        seq!['已', '核', '销'],
        seq!['已', '返', '修'],
    ]
}

/// The list `finish_words()`.
pub fn finish_words_list() -> (r: Vec<Vec<char>>)
    ensures
        views(r@) == finish_words(),
{
    let r: Vec<Vec<char>> = vec![
        vec!['完', '成'],
        vec!['提', '交'],
        vec!['搞', '定'],
        vec!['交', '付'],
        vec!['做', '完'],
        vec!['完', '毕'],
        vec!['解', '决'],
        vec!['已', '发'],
        vec!['发', '了'],
        vec!['上', '线'],
        vec!['通', '过'],
        vec!['定', '稿'],
        vec!['已', '办'],
        vec!['办', '结'],
        vec!['处', '理', '好'],
        vec!['已', '处', '理'],
        vec!['已', '关', '闭'],
        vec!['已', '核', '销'],
        vec!['已', '返', '修'],
    ];
    assert(views(r@) =~= finish_words());
    r
}

/// Words that call for an action.
pub open spec fn action_words() -> Seq<Seq<char>> {
    seq![
        seq!['提', '交'],
        seq!['完', '成'],
        seq!['发', '送'],
        seq!['确', '认'],
        seq!['汇', '报'],
        seq!['开', '会'],
        seq!['联', '系'],
        seq!['跟', '进'],
        seq!['整', '理'],
        seq!['打', '款'],
        seq!['购', '买'],
        seq!['核', '对'],
        seq!['上', '线'],
        seq!['对', '接'],
        seq!['催', '办'],
        seq!['索', '要'],
        seq!['审', '核'],
        seq!['审', '批'],
        seq!['交', '付'],
        seq!['验', '收'],
        seq!['签', '署'],
        seq!['对', '账'],
        seq!['报', '销'],
        seq!['发', '邮', '件'],
        seq!['更', '新'],
        seq!['同', '步'],
        seq!['安', '排'],
        seq!['反', '馈'],
        seq!['回', '复'],
        seq!['起', '草'],
        seq!['复', '盘'],
        seq!['测', '试'],
        seq!['部', '署'],
        seq!['发', '布'],
        seq!['采', '购'],
        seq!['催', '促'],
        seq!['催', '一', '下'],
        seq!['要', '一', '下'],
        seq!['问', '一', '下'],
    ]
}

/// The list `action_words()`.
pub fn action_words_list() -> (r: Vec<Vec<char>>)
    ensures
        views(r@) == action_words(),
{
    let r: Vec<Vec<char>> = vec![
        vec!['提', '交'],
        vec!['完', '成'],
        vec!['发', '送'],
        vec!['确', '认'],
        vec!['汇', '报'],
        vec!['开', '会'],
        vec!['联', '系'],
        vec!['跟', '进'],
        vec!['整', '理'],
        vec!['打', '款'],
        vec!['购', '买'],
        vec!['核', '对'],
        vec!['上', '线'],
        vec!['对', '接'],
        vec!['催', '办'],
        vec!['索', '要'],
        vec!['审', '核'],
        vec!['审', '批'],
        vec!['交', '付'],
        vec!['验', '收'],
        vec!['签', '署'],
        vec!['对', '账'],
        vec!['报', '销'],
        vec!['发', '邮', '件'],
        vec!['更', '新'],
        vec!['同', '步'],
        vec!['安', '排'],
        vec!['反', '馈'],
        vec!['回', '复'],
        vec!['起', '草'],
        vec!['复', '盘'],
        vec!['测', '试'],
        vec!['部', '署'],
        vec!['发', '布'],
        vec!['采', '购'],
        vec!['催', '促'],
        vec!['催', '一', '下'],
        vec!['要', '一', '下'],
        vec!['问', '一', '下'],
    ];
    assert(views(r@) =~= action_words());
    r
}

/// Whether some word of `ws` occurs in `s`.
pub open spec fn any_in(s: Seq<char>, ws: Seq<Seq<char>>) -> bool {
    exists|i: int| 0 <= i < ws.len() && #[trigger] contains(s, ws[i])
}

/// Tests `any_in(s@, views(ws@))`.
pub fn contains_any(s: &[char], ws: &Vec<Vec<char>>) -> (r: bool)
    ensures
        r == any_in(s@, views(ws@)),
{
    let mut i: usize = 0;
    while i < ws.len()
        invariant
            i <= ws@.len(),
            forall|k: int| 0 <= k < i ==> !contains(s@, #[trigger] views(ws@)[k]),
        decreases ws.len() - i,
    {
        if contains_exec(s, ws[i].as_slice()) {
            assert(contains(s@, views(ws@)[i as int]));
            return true;
        }
        i = i + 1;
    }
    false
}

/// Tests `views(ws@).contains(w@)`.
pub fn is_one_of(w: &[char], ws: &Vec<Vec<char>>) -> (r: bool)
    ensures
        r == views(ws@).contains(w@),
{
    let mut i: usize = 0;
    while i < ws.len()
        invariant
            i <= ws@.len(),
            forall|k: int| 0 <= k < i ==> #[trigger] views(ws@)[k] != w@,
        decreases ws.len() - i,
    {
        if chars_are(ws[i].as_slice(), w) {
            assert(views(ws@)[i as int] == w@);
            return true;
        }
        i = i + 1;
    }
    false
}

} // verus!
