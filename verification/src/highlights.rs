//! Chat of a recording: where it is dense, and where words occur in it.
use vstd::prelude::*;
use crate::events::{DanmuEntry, DanmuEntryView};
use crate::text;

verus! {

/// A stretch of time in which there was much chat.
pub struct Window {
    /// The place of the stretch among stretches of the same length.
    pub index: usize,
    pub comment_count: usize,
    pub sample_comments: Vec<String>,
}

/// The model of a stretch of time in which there was much chat.
#[verifier::ext_equal]
pub struct WindowView {
    pub index: usize,
    pub comment_count: usize,
    pub sample_comments: Seq<Seq<char>>,
}

impl DeepView for Window {
    type V = WindowView;

    open spec fn deep_view(&self) -> WindowView {
        WindowView {
            index: self.index,
            comment_count: self.comment_count,
            sample_comments: self.sample_comments.deep_view(),
        }
    }
}

/// The chat of a stretch of time, in the order in which it came. `indices` has the stretch of each
/// line.
pub open spec fn comments_in(
    entries: Seq<DanmuEntryView>,
    indices: Seq<usize>,
    index: usize,
) -> Seq<Seq<char>>
    decreases entries.len(),
{
    if entries.len() == 0 {
        Seq::empty()
    } else {
        let before = comments_in(entries.drop_last(), indices, index);
        if indices[entries.len() - 1] == index {
            before.push(entries.last().content)
        } else {
            before
        }
    }
}

/// The first five of a list.
pub open spec fn first_five(comments: Seq<Seq<char>>) -> Seq<Seq<char>> {
    if comments.len() <= 5 {
        comments
    } else {
        comments.take(5)
    }
}

/// What is shown of the chat of a stretch of time.
pub open spec fn summary(comments: Seq<Seq<char>>, index: usize) -> WindowView {
    WindowView {
        index,
        comment_count: comments.len() as usize,
        sample_comments: first_five(comments),
    }
}

/// Whether stretches are one after the other.
pub open spec fn rising(windows: Seq<WindowView>) -> bool {
    forall|a: int, b: int|
        #![trigger windows[a], windows[b]]
        0 <= a < b < windows.len() ==> windows[a].index < windows[b].index
}

/// Whether stretches are those of chat lines, all that have some.
pub open spec fn covers(
    windows: Seq<WindowView>,
    entries: Seq<DanmuEntryView>,
    indices: Seq<usize>,
) -> bool {
    &&& rising(windows)
    &&& forall|a: int|
        0 <= a < windows.len() ==> #[trigger] windows[a] == summary(
            comments_in(entries, indices, windows[a].index),
            windows[a].index,
        ) && windows[a].comment_count > 0
    &&& forall|index: usize|
        (#[trigger] comments_in(entries, indices, index)).len() > 0 ==> exists|a: int|
            0 <= a < windows.len() && (#[trigger] windows[a]).index == index
}

proof fn lemma_comments_len(entries: Seq<DanmuEntryView>, indices: Seq<usize>, index: usize)
    ensures
        comments_in(entries, indices, index).len() <= entries.len(),
    decreases entries.len(),
{
    if entries.len() > 0 {
        lemma_comments_len(entries.drop_last(), indices, index);
    }
}

fn place(windows: &Vec<Window>, index: usize) -> (res: usize)
    requires
        rising(windows.deep_view()),
    ensures
        res <= windows@.len(),
        forall|a: int| 0 <= a < res ==> (#[trigger] windows@[a]).index <= index,
        forall|a: int| res <= a < windows@.len() ==> (#[trigger] windows@[a]).index > index,
{
    let ghost all = windows.deep_view();
    let mut p: usize = windows.len();
    while p > 0 && windows[p - 1].index > index
        invariant
            p <= windows@.len(),
            forall|a: int| p <= a < windows@.len() ==> (#[trigger] windows@[a]).index > index,
        decreases p,
    {
        p -= 1;
    }
    proof {
        assert forall|a: int| 0 <= a < p implies (#[trigger] windows@[a]).index <= index by {
            assert(all[a].index == windows@[a].index);
            assert(all[p - 1].index == windows@[p - 1].index);
            if a < p - 1 {
                assert(all[a].index < all[p - 1].index);
            }
        }
    }
    p
}

fn count_line(windows: &mut Vec<Window>, index: usize, content: &str, total: usize)
    requires
        rising(old(windows).deep_view()),
        forall|a: int|
            0 <= a < old(windows)@.len() ==> (#[trigger] old(windows)@[a]).comment_count < total,
    ensures
        rising(final(windows).deep_view()),
        forall|a: int|
            #![trigger final(windows).deep_view()[a]]
            0 <= a < final(windows).deep_view().len() && final(windows).deep_view()[a].index
                != index ==> old(windows).deep_view().contains(final(windows).deep_view()[a]),
        forall|a: int|
            #![trigger old(windows).deep_view()[a]]
            0 <= a < old(windows).deep_view().len() && old(windows).deep_view()[a].index != index
                ==> final(windows).deep_view().contains(old(windows).deep_view()[a]),
        exists|a: int|
            0 <= a < final(windows).deep_view().len() && (
            #[trigger] final(windows).deep_view()[a]).index == index,
        forall|a: int|
            #![trigger final(windows).deep_view()[a]]
            0 <= a < final(windows).deep_view().len() && final(windows).deep_view()[a].index
                == index ==> counted(
                old(windows).deep_view(),
                final(windows).deep_view()[a],
                index,
                content@,
            ),
{
    let ghost before = windows.deep_view();
    let p = place(windows, index);
    if p > 0 && windows[p - 1].index == index {
        let mut w = windows.remove(p - 1);
        let ghost own = w.deep_view();
        w.comment_count = w.comment_count + 1;
        if w.sample_comments.len() < 5 {
            let ghost samples = w.sample_comments.deep_view();
            w.sample_comments.push(text::copy(content));
            assert(w.sample_comments.deep_view() =~= samples.push(content@));
        }
        let ghost new = w.deep_view();
        windows.insert(p - 1, w);
        let ghost after = windows.deep_view();
        proof {
            assert(before[p - 1] == own);
            assert(after =~= before.update(p - 1, new));
            assert forall|a: int|
                #![trigger after[a]]
                0 <= a < after.len() && after[a].index != index implies before.contains(
                after[a],
            ) by {
                assert(before[a] == after[a]);
            }
            assert forall|a: int|
                #![trigger before[a]]
                0 <= a < before.len() && before[a].index != index implies after.contains(
                before[a],
            ) by {
                assert(after[a] == before[a]);
            }
            assert(after[p - 1].index == index);
            assert forall|a: int|
                #![trigger after[a]]
                0 <= a < after.len() && after[a].index == index implies counted(
                before,
                after[a],
                index,
                content@,
            ) by {
                if a != p - 1 {
                    assert(before[a].index == index);
                    if a < p - 1 {
                        assert(before[a].index < before[p - 1].index);
                    } else {
                        assert(before[p - 1].index < before[a].index);
                    }
                }
                assert(before[p - 1].index == index);
            }
        }
    } else {
        let mut samples: Vec<String> = Vec::new();
        samples.push(text::copy(content));
        assert(samples.deep_view() =~= seq![content@]);
        let w = Window { index, comment_count: 1, sample_comments: samples };
        let ghost new = w.deep_view();
        windows.insert(p, w);
        let ghost after = windows.deep_view();
        proof {
            assert(after =~= before.insert(p as int, new));
            assert forall|a: int| 0 <= a < before.len() implies (#[trigger] before[a]).index
                != index by {
                assert(before[a].index == old(windows)@[a].index);
                if a < p {
                    assert(before[p - 1].index == old(windows)@[p - 1].index);
                    if a < p - 1 {
                        assert(before[a].index < before[p - 1].index);
                    }
                }
            }
            assert(rising(after)) by {
                assert forall|a: int, b: int|
                    #![trigger after[a], after[b]]
                    0 <= a < b < after.len() implies after[a].index < after[b].index by {
                    let x = if a < p {
                        a
                    } else {
                        a - 1
                    };
                    let y = if b < p {
                        b
                    } else {
                        b - 1
                    };
                    if a == p {
                        assert(after[b] == before[y]);
                        assert(before[y].index == old(windows)@[y].index);
                    } else if b == p {
                        assert(after[a] == before[x]);
                        assert(before[x].index == old(windows)@[x].index);
                    } else {
                        assert(after[a] == before[x]);
                        assert(after[b] == before[y]);
                    }
                }
            }
            assert forall|a: int|
                #![trigger after[a]]
                0 <= a < after.len() && after[a].index != index implies before.contains(
                after[a],
            ) by {
                let x = if a < p {
                    a
                } else {
                    a - 1
                };
                assert(before[x] == after[a]);
            }
            assert forall|a: int|
                #![trigger before[a]]
                0 <= a < before.len() && before[a].index != index implies after.contains(
                before[a],
            ) by {
                let x = if a < p {
                    a
                } else {
                    a + 1
                };
                assert(after[x] == before[a]);
            }
            assert(after[p as int].index == index);
            assert forall|a: int|
                #![trigger after[a]]
                0 <= a < after.len() && after[a].index == index implies counted(
                before,
                after[a],
                index,
                content@,
            ) by {
                if a != p {
                    let x = if a < p {
                        a
                    } else {
                        a - 1
                    };
                    assert(after[a] == before[x]);
                }
            }
        }
    }
}

/// Whether a stretch is what counting one more line makes of it.
spec fn counted(
    before: Seq<WindowView>,
    after: WindowView,
    index: usize,
    content: Seq<char>,
) -> bool {
    if exists|a: int| 0 <= a < before.len() && (#[trigger] before[a]).index == index {
        exists|a: int|
            0 <= a < before.len() && (#[trigger] before[a]).index == index && after.comment_count
                == before[a].comment_count + 1 && after.sample_comments == (if before[
                a
            ].sample_comments.len() < 5 {
                before[a].sample_comments.push(content)
            } else {
                before[a].sample_comments
            })
    } else {
        after.comment_count == 1 && after.sample_comments == seq![content]
    }
}

proof fn lemma_counted(
    before: Seq<WindowView>,
    after: Seq<WindowView>,
    entries: Seq<DanmuEntryView>,
    indices: Seq<usize>,
)
    requires
        entries.len() > 0,
        entries.len() <= usize::MAX,
        covers(before, entries.drop_last(), indices),
        rising(after),
        forall|a: int|
            #![trigger after[a]]
            0 <= a < after.len() && after[a].index != indices[entries.len() - 1]
                ==> before.contains(after[a]),
        forall|a: int|
            #![trigger before[a]]
            0 <= a < before.len() && before[a].index != indices[entries.len() - 1]
                ==> after.contains(before[a]),
        exists|a: int|
            0 <= a < after.len() && (#[trigger] after[a]).index == indices[entries.len() - 1],
        forall|a: int|
            #![trigger after[a]]
            0 <= a < after.len() && after[a].index == indices[entries.len() - 1] ==> counted(
                before,
                after[a],
                indices[entries.len() - 1],
                entries.last().content,
            ),
    ensures
        covers(after, entries, indices),
{
    let own = indices[entries.len() - 1];
    let rest = entries.drop_last();
    assert forall|a: int| 0 <= a < after.len() implies #[trigger] after[a] == summary(
        comments_in(entries, indices, after[a].index),
        after[a].index,
    ) && after[a].comment_count > 0 by {
        if after[a].index != own {
            let b = choose|b: int| 0 <= b < before.len() && before[b] == after[a];
            assert(before[b] == summary(
                comments_in(rest, indices, before[b].index),
                before[b].index,
            ));
        } else {
            let old_comments = comments_in(rest, indices, own);
            let comments = comments_in(entries, indices, own);
            assert(comments == old_comments.push(entries.last().content));
            lemma_comments_len(rest, indices, own);
            if exists|b: int| 0 <= b < before.len() && (#[trigger] before[b]).index == own {
                let b = choose|b: int|
                    0 <= b < before.len() && (#[trigger] before[b]).index == own
                        && after[a].comment_count == before[b].comment_count + 1
                        && after[a].sample_comments == (if before[b].sample_comments.len() < 5 {
                        before[b].sample_comments.push(entries.last().content)
                    } else {
                        before[b].sample_comments
                    });
                assert(before[b] == summary(old_comments, own));
                if old_comments.len() < 5 {
                    assert(first_five(old_comments) == old_comments);
                    assert(first_five(comments) =~= after[a].sample_comments);
                } else if old_comments.len() == 5 {
                    assert(first_five(old_comments) == old_comments);
                    assert(first_five(comments) =~= old_comments);
                } else {
                    assert(first_five(comments) =~= old_comments.take(5));
                }
            } else {
                assert(old_comments.len() == 0);
                assert(comments =~= seq![entries.last().content]);
            }
        }
    }
    assert forall|index: usize|
        (#[trigger] comments_in(entries, indices, index)).len() > 0 implies exists|a: int|
        0 <= a < after.len() && (#[trigger] after[a]).index == index by {
        if index != own {
            assert(comments_in(rest, indices, index).len() > 0);
            let b = choose|b: int| 0 <= b < before.len() && (#[trigger] before[b]).index == index;
            assert(after.contains(before[b]));
            let a = choose|a: int| 0 <= a < after.len() && after[a] == before[b];
            assert(after[a].index == index);
        }
    }
}

fn windows_of(danmus: &Vec<DanmuEntry>, indices: &Vec<usize>) -> (res: Vec<Window>)
    requires
        indices@.len() == danmus@.len(),
    ensures
        covers(res.deep_view(), danmus.deep_view(), indices@),
{
    let mut windows: Vec<Window> = Vec::new();
    let ghost all = danmus.deep_view();
    let n = danmus.len();
    let mut i: usize = 0;
    assert(all.take(0) =~= Seq::empty());
    assert(windows.deep_view() =~= Seq::<WindowView>::empty());
    while i < n
        invariant
            i <= n,
            n == danmus@.len(),
            indices@.len() == n,
            all == danmus.deep_view(),
            covers(windows.deep_view(), all.take(i as int), indices@),
        decreases n - i,
    {
        let ghost next = all.take(i + 1);
        let ghost before = windows.deep_view();
        proof {
            assert(next.drop_last() =~= all.take(i as int));
            assert(next.last() == danmus@[i as int].deep_view());
            assert forall|a: int| 0 <= a < windows@.len() implies (
            #[trigger] windows@[a]).comment_count < i + 1 by {
                assert(before[a] == windows@[a].deep_view());
                lemma_comments_len(all.take(i as int), indices@, before[a].index);
            }
        }
        count_line(&mut windows, indices[i], danmus[i].content.as_str(), i + 1);
        proof {
            lemma_counted(before, windows.deep_view(), next, indices@);
        }
        i += 1;
    }
    assert(all.take(i as int) =~= all);
    windows
}

/// The stretches of time with at least so many lines of chat, one after the other, each with the
/// number of its lines and the first of them. `indices` has the stretch of each line.
pub fn analyze_danmu_highlights(
    danmus: &Vec<DanmuEntry>,
    indices: &Vec<usize>,
    min_density: usize,
) -> (res: Vec<Window>)
    requires
        indices@.len() == danmus@.len(),
    ensures
        rising(res.deep_view()),
        forall|a: int|
            0 <= a < res.deep_view().len() ==> {
                &&& #[trigger] res.deep_view()[a] == summary(
                    comments_in(danmus.deep_view(), indices@, res.deep_view()[a].index),
                    res.deep_view()[a].index,
                )
                &&& res.deep_view()[a].comment_count > 0
                &&& res.deep_view()[a].comment_count >= min_density
            },
        forall|index: usize|
            (#[trigger] comments_in(danmus.deep_view(), indices@, index)).len() > 0 && comments_in(
                danmus.deep_view(),
                indices@,
                index,
            ).len() >= min_density ==> exists|a: int|
                0 <= a < res.deep_view().len() && (#[trigger] res.deep_view()[a]).index == index,
{
    let windows = windows_of(danmus, indices);
    let n = danmus.len();
    let ghost all = windows.deep_view();
    let ghost entries = danmus.deep_view();
    let mut out: Vec<Window> = Vec::new();
    let mut i: usize = 0;
    while i < windows.len()
        invariant
            i <= windows@.len(),
            all == windows.deep_view(),
            rising(all),
            rising(out.deep_view()),
            forall|a: int|
                0 <= a < out.deep_view().len() ==> (#[trigger] out.deep_view()[a]).comment_count
                    >= min_density && all.take(i as int).contains(out.deep_view()[a]),
            forall|b: int|
                0 <= b < i && (#[trigger] all[b]).comment_count >= min_density
                    ==> out.deep_view().contains(all[b]),
        decreases windows@.len() - i,
    {
        let ghost before = out.deep_view();
        let ghost seen = all.take(i as int);
        let ghost more = all.take(i + 1);
        assert(all[i as int] == windows@[i as int].deep_view());
        proof {
            assert forall|w: WindowView| #[trigger] seen.contains(w) implies more.contains(w) by {
                let k = choose|k: int| 0 <= k < seen.len() && seen[k] == w;
                assert(more[k] == w);
            }
        }
        if windows[i].comment_count >= min_density {
            let copy = Window {
                index: windows[i].index,
                comment_count: windows[i].comment_count,
                sample_comments: text::copy_list(&windows[i].sample_comments),
            };
            out.push(copy);
            let ghost after = out.deep_view();
            proof {
                assert(after =~= before.push(all[i as int]));
                assert(more[i as int] == all[i as int]);
                assert forall|a: int, b: int|
                    #![trigger after[a], after[b]]
                    0 <= a < b < after.len() implies after[a].index < after[b].index by {
                    if b == after.len() - 1 {
                        assert(seen.contains(before[a]));
                        let k = choose|k: int| 0 <= k < seen.len() && seen[k] == before[a];
                        assert(all[k] == before[a]);
                        assert(all[k].index < all[i as int].index);
                    } else {
                        assert(before[a].index < before[b].index);
                    }
                }
                assert forall|a: int| 0 <= a < after.len() implies (
                #[trigger] after[a]).comment_count >= min_density && more.contains(after[a]) by {
                    if a < before.len() {
                        assert(after[a] == before[a]);
                    }
                }
                assert forall|b: int|
                    0 <= b <= i && (#[trigger] all[b]).comment_count >= min_density implies after.contains(
                all[b],
                ) by {
                    if b < i {
                        assert(before.contains(all[b]));
                        let k = choose|k: int| 0 <= k < before.len() && before[k] == all[b];
                        assert(after[k] == all[b]);
                    } else {
                        assert(after[after.len() - 1] == all[b]);
                    }
                }
            }
        }
        i += 1;
    }
    proof {
        assert(all.take(i as int) =~= all);
        assert(entries.len() == n);
        let res = out.deep_view();
        assert forall|a: int| 0 <= a < res.len() implies #[trigger] res[a] == summary(
            comments_in(entries, indices@, res[a].index),
            res[a].index,
        ) && res[a].comment_count > 0 by {
            let k = choose|k: int| 0 <= k < all.len() && all[k] == res[a];
            assert(all[k].comment_count > 0);
        }
        assert forall|index: usize|
            (#[trigger] comments_in(entries, indices@, index)).len() > 0 && comments_in(
                entries,
                indices@,
                index,
            ).len() >= min_density implies exists|a: int|
            0 <= a < res.len() && (#[trigger] res[a]).index == index by {
            let k = choose|k: int| 0 <= k < all.len() && (#[trigger] all[k]).index == index;
            lemma_comments_len(entries, indices@, index);
            assert(all[k] == summary(comments_in(entries, indices@, all[k].index), all[k].index));
            assert(res.contains(all[k]));
            let a = choose|a: int| 0 <= a < res.len() && res[a] == all[k];
            assert(res[a].index == index);
        }
    }
    out
}

/// A line of chat in which a word occurs.
pub struct KeywordMatch {
    pub ts: i64,
    pub content: String,
    pub keyword: String,
}

/// The model of a line of chat in which a word occurs.
#[verifier::ext_equal]
pub struct MatchView {
    pub ts: i64,
    pub content: Seq<char>,
    pub keyword: Seq<char>,
}

impl DeepView for KeywordMatch {
    type V = MatchView;

    open spec fn deep_view(&self) -> MatchView {
        MatchView { ts: self.ts, content: self.content@, keyword: self.keyword@ }
    }
}

/// The words that are looked for: without white space around them, and none that is empty.
pub open spec fn usable_keywords(keywords: Seq<Seq<char>>) -> Seq<Seq<char>>
    decreases keywords.len(),
{
    if keywords.len() == 0 {
        Seq::empty()
    } else {
        let before = usable_keywords(keywords.drop_last());
        let last = text::trimmed(keywords.last());
        if last.len() > 0 {
            before.push(last)
        } else {
            before
        }
    }
}

/// The first of the words that occurs in a text.
pub open spec fn first_keyword(content: Seq<char>, keywords: Seq<Seq<char>>) -> Option<Seq<char>>
    decreases keywords.len(),
{
    if keywords.len() == 0 {
        None
    } else if text::occurs(content, keywords[0]) {
        Some(keywords[0])
    } else {
        first_keyword(content, keywords.drop_first())
    }
}

/// The lines of chat in which a word occurs, each with the first of the words that does.
pub open spec fn matches_of(entries: Seq<DanmuEntryView>, keywords: Seq<Seq<char>>) -> Seq<MatchView>
    decreases entries.len(),
{
    if entries.len() == 0 {
        Seq::empty()
    } else {
        let before = matches_of(entries.drop_last(), keywords);
        let e = entries.last();
        match first_keyword(e.content, keywords) {
            Some(keyword) => before.push(MatchView { ts: e.ts, content: e.content, keyword }),
            None => before,
        }
    }
}

fn keep_usable(keywords: &Vec<String>) -> (res: Vec<String>)
    ensures
        res.deep_view() == usable_keywords(keywords.deep_view()),
{
    let mut out: Vec<String> = Vec::new();
    let ghost all = keywords.deep_view();
    let mut i: usize = 0;
    assert(all.take(0) =~= Seq::empty());
    assert(out.deep_view() =~= Seq::<Seq<char>>::empty());
    while i < keywords.len()
        invariant
            i <= keywords@.len(),
            all == keywords.deep_view(),
            out.deep_view() == usable_keywords(all.take(i as int)),
        decreases keywords@.len() - i,
    {
        assert(all.take(i + 1).drop_last() =~= all.take(i as int));
        assert(all.take(i + 1).last() == keywords@[i as int]@);
        let ghost before = out.deep_view();
        let keyword = text::trim(keywords[i].as_str());
        if !text::is_empty(keyword.as_str()) {
            out.push(keyword);
            assert(out.deep_view() =~= before.push(keyword@));
        }
        i += 1;
    }
    assert(all.take(i as int) =~= all);
    out
}

fn find_keyword(content: &str, keywords: &Vec<String>) -> (res: Option<String>)
    ensures
        res.deep_view() == first_keyword(content@, keywords.deep_view()),
{
    let ghost all = keywords.deep_view();
    let mut i: usize = 0;
    assert(all.skip(0) =~= all);
    while i < keywords.len()
        invariant
            i <= keywords@.len(),
            all == keywords.deep_view(),
            first_keyword(content@, all) == first_keyword(content@, all.skip(i as int)),
        decreases keywords@.len() - i,
    {
        assert(all.skip(i as int)[0] == keywords@[i as int]@);
        assert(all.skip(i as int).drop_first() =~= all.skip(i + 1));
        if text::contains(content, keywords[i].as_str()) {
            return Some(text::copy(keywords[i].as_str()));
        }
        i += 1;
    }
    assert(all.skip(i as int).len() == 0);
    None
}

/// The lines of chat in which one of the words occurs.
pub fn search_danmu_keywords(danmus: &Vec<DanmuEntry>, keywords: &Vec<String>) -> (res: Result<
    Vec<KeywordMatch>,
    String,
>)
    ensures
        ({
            let usable = usable_keywords(keywords.deep_view());
            if usable.len() == 0 {
                res matches Err(e) && e@ == "keywords must contain at least one non-empty value"@
            } else {
                res matches Ok(list) && list.deep_view() == matches_of(danmus.deep_view(), usable)
            }
        }),
{
    let usable = keep_usable(keywords);
    if usable.len() == 0 {
        return Err(text::copy("keywords must contain at least one non-empty value"));
    }
    let mut out: Vec<KeywordMatch> = Vec::new();
    let ghost all = danmus.deep_view();
    let ghost words = usable.deep_view();
    let mut i: usize = 0;
    assert(all.take(0) =~= Seq::empty());
    assert(out.deep_view() =~= Seq::<MatchView>::empty());
    while i < danmus.len()
        invariant
            i <= danmus@.len(),
            all == danmus.deep_view(),
            words == usable.deep_view(),
            out.deep_view() == matches_of(all.take(i as int), words),
        decreases danmus@.len() - i,
    {
        assert(all.take(i + 1).drop_last() =~= all.take(i as int));
        assert(all.take(i + 1).last() == danmus@[i as int].deep_view());
        let ghost before = out.deep_view();
        if let Some(keyword) = find_keyword(danmus[i].content.as_str(), &usable) {
            let found = KeywordMatch {
                ts: danmus[i].ts,
                content: text::copy(danmus[i].content.as_str()),
                keyword,
            };
            out.push(found);
            assert(out.deep_view() =~= before.push(found.deep_view()));
        }
        i += 1;
    }
    assert(all.take(i as int) =~= all);
    Ok(out)
}

/// The comments of a window are those of its own index, in order: those of some entries and then of
/// more are those of all of them.
pub proof fn law_windows_hold_their_comments(
    a: Seq<DanmuEntryView>,
    b: Seq<DanmuEntryView>,
    indices: Seq<usize>,
    index: usize,
)
    requires
        indices.len() == a.len() + b.len(),
    ensures
        comments_in(a + b, indices, index) == comments_in(a, indices, index) + comments_in(
            b,
            indices.skip(a.len() as int),
            index,
        ),
        a.len() == 0 ==> comments_in(a, indices, index).len() == 0,
        a.len() == 1 && indices[0] == index ==> comments_in(a, indices, index) == seq![
            a[0].content,
        ],
        a.len() == 1 && indices[0] != index ==> comments_in(a, indices, index).len() == 0,
    decreases b.len(),
{
    reveal_with_fuel(comments_in, 2);
    if b.len() == 0 {
        assert(a + b =~= a);
    } else {
        let less = indices.drop_last();
        law_windows_hold_their_comments(a, b.drop_last(), less, index);
        assert((a + b).drop_last() =~= a + b.drop_last());
        lemma_longer_indices(a, less, indices, index);
        lemma_longer_indices(a + b.drop_last(), less, indices, index);
        lemma_longer_indices(
            b.drop_last(),
            less.skip(a.len() as int),
            indices.skip(a.len() as int),
            index,
        );
    }
}

proof fn lemma_longer_indices(
    entries: Seq<DanmuEntryView>,
    x: Seq<usize>,
    y: Seq<usize>,
    index: usize,
)
    requires
        entries.len() <= x.len(),
        entries.len() <= y.len(),
        forall|i: int| 0 <= i < entries.len() ==> x[i] == y[i],
    ensures
        comments_in(entries, x, index) == comments_in(entries, y, index),
    decreases entries.len(),
{
    if entries.len() > 0 {
        lemma_longer_indices(entries.drop_last(), x, y, index);
    }
}

proof fn lemma_counted_once(entries: Seq<DanmuEntryView>, indices: Seq<usize>, i: int)
    requires
        indices.len() == entries.len(),
        0 <= i < entries.len(),
    ensures
        comments_in(entries, indices, indices[i]).len() > 0,
    decreases entries.len(),
{
    if i < entries.len() - 1 {
        lemma_counted_once(entries.drop_last(), indices.drop_last(), i);
        lemma_longer_indices(entries.drop_last(), indices.drop_last(), indices, indices[i]);
    }
}

/// Every comment falls in a window, and every window is one that some comment falls in: it counts its
/// comments and shows the first of them, five at most. Windows rise.
pub proof fn law_every_comment_has_its_window(
    windows: Seq<WindowView>,
    entries: Seq<DanmuEntryView>,
    indices: Seq<usize>,
)
    requires
        covers(windows, entries, indices),
        indices.len() == entries.len(),
        entries.len() <= usize::MAX,
    ensures
        forall|i: int|
            0 <= i < entries.len() ==> exists|a: int|
                0 <= a < windows.len() && (#[trigger] windows[a]).index == #[trigger] indices[i],
        forall|a: int|
            0 <= a < windows.len() ==> (#[trigger] windows[a]).comment_count == comments_in(
                entries,
                indices,
                windows[a].index,
            ).len() && windows[a].comment_count > 0,
        forall|a: int|
            0 <= a < windows.len() ==> (#[trigger] windows[a]).sample_comments.len() == (
            if windows[a].comment_count < 5 {
                windows[a].comment_count as int
            } else {
                5
            }) && windows[a].sample_comments.is_prefix_of(
                comments_in(entries, indices, windows[a].index),
            ),
        forall|a: int, b: int|
            #![trigger windows[a], windows[b]]
            0 <= a < b < windows.len() ==> windows[a].index < windows[b].index,
{
    assert forall|i: int| 0 <= i < entries.len() implies exists|a: int|
        0 <= a < windows.len() && (#[trigger] windows[a]).index == #[trigger] indices[i] by {
        lemma_counted_once(entries, indices, i);
        assert(comments_in(entries, indices, indices[i]).len() > 0);
    }
    assert forall|a: int| 0 <= a < windows.len() implies (#[trigger] windows[a]).comment_count
        == comments_in(entries, indices, windows[a].index).len() && windows[a].comment_count > 0 by {
        lemma_no_more_comments(entries, indices, windows[a].index);
    }
    assert forall|a: int| 0 <= a < windows.len() implies (
    #[trigger] windows[a]).sample_comments.len() == (if windows[a].comment_count < 5 {
        windows[a].comment_count as int
    } else {
        5
    }) && windows[a].sample_comments.is_prefix_of(
        comments_in(entries, indices, windows[a].index),
    ) by {
        lemma_no_more_comments(entries, indices, windows[a].index);
    }
}

proof fn lemma_no_more_comments(entries: Seq<DanmuEntryView>, indices: Seq<usize>, index: usize)
    ensures
        comments_in(entries, indices, index).len() <= entries.len(),
    decreases entries.len(),
{
    if entries.len() > 0 {
        lemma_no_more_comments(entries.drop_last(), indices, index);
    }
}

/// Keywords are looked for without white space around them, and those that are nothing else are
/// passed over.
pub proof fn law_keywords_are_trimmed(a: Seq<Seq<char>>, b: Seq<Seq<char>>)
    ensures
        usable_keywords(a + b) == usable_keywords(a) + usable_keywords(b),
        a.len() == 0 ==> usable_keywords(a).len() == 0,
        a.len() == 1 && text::trimmed(a[0]).len() > 0 ==> usable_keywords(a) == seq![
            text::trimmed(a[0]),
        ],
        a.len() == 1 && text::trimmed(a[0]).len() == 0 ==> usable_keywords(a).len() == 0,
    decreases b.len(),
{
    reveal_with_fuel(usable_keywords, 2);
    if b.len() == 0 {
        assert(a + b =~= a);
    } else {
        law_keywords_are_trimmed(a, b.drop_last());
        assert((a + b).drop_last() =~= a + b.drop_last());
    }
}

/// A text is found under the first keyword that occurs in it, and under none where none does.
pub proof fn law_texts_are_found_under_their_first_keyword(
    content: Seq<char>,
    keywords: Seq<Seq<char>>,
)
    ensures
        first_keyword(content, keywords) is None <==> forall|i: int|
            0 <= i < keywords.len() ==> !text::occurs(content, #[trigger] keywords[i]),
        first_keyword(content, keywords) matches Some(k) ==> text::occurs(content, k) && exists|
            i: int,
        |
            0 <= i < keywords.len() && (#[trigger] keywords[i]) == k && forall|j: int|
                0 <= j < i ==> !text::occurs(content, #[trigger] keywords[j]),
    decreases keywords.len(),
{
    if keywords.len() > 0 {
        if text::occurs(content, keywords[0]) {
            assert(keywords[0] == keywords[0]);
        } else {
            let rest = keywords.drop_first();
            law_texts_are_found_under_their_first_keyword(content, rest);
            assert forall|i: int| 0 < i < keywords.len() implies keywords[i] == rest[i - 1] by {}
            if first_keyword(content, rest) is Some {
                let k = first_keyword(content, rest)->0;
                let i = choose|i: int|
                    0 <= i < rest.len() && (#[trigger] rest[i]) == k && forall|j: int|
                        0 <= j < i ==> !text::occurs(content, #[trigger] rest[j]);
                assert(keywords[i + 1] == k);
                assert forall|j: int| 0 <= j < i + 1 implies !text::occurs(
                    content,
                    #[trigger] keywords[j],
                ) by {
                    if j > 0 {
                        assert(keywords[j] == rest[j - 1]);
                    }
                }
            } else {
                assert forall|i: int| 0 <= i < keywords.len() implies !text::occurs(
                    content,
                    #[trigger] keywords[i],
                ) by {
                    if i > 0 {
                        assert(keywords[i] == rest[i - 1]);
                    }
                }
            }
        }
    }
}

/// Chat is searched line by line, in order: a line is found exactly where a keyword occurs in it, at
/// its own time and with its own text.
pub proof fn law_every_line_with_a_keyword_is_found(
    a: Seq<DanmuEntryView>,
    b: Seq<DanmuEntryView>,
    keywords: Seq<Seq<char>>,
)
    ensures
        matches_of(a + b, keywords) == matches_of(a, keywords) + matches_of(b, keywords),
        a.len() == 0 ==> matches_of(a, keywords).len() == 0,
        a.len() == 1 ==> matches_of(a, keywords).len() <= 1,
        a.len() == 1 ==> (matches_of(a, keywords).len() == 1 <==> exists|i: int|
            0 <= i < keywords.len() && text::occurs(a[0].content, #[trigger] keywords[i])),
        a.len() == 1 && matches_of(a, keywords).len() == 1 ==> matches_of(a, keywords)[0].ts
            == a[0].ts && matches_of(a, keywords)[0].content == a[0].content && keywords.contains(
            matches_of(a, keywords)[0].keyword,
        ) && text::occurs(a[0].content, matches_of(a, keywords)[0].keyword),
    decreases b.len(),
{
    reveal_with_fuel(matches_of, 2);
    if a.len() == 1 {
        law_texts_are_found_under_their_first_keyword(a[0].content, keywords);
    }
    if b.len() == 0 {
        assert(a + b =~= a);
    } else {
        law_every_line_with_a_keyword_is_found(a, b.drop_last(), keywords);
        assert((a + b).drop_last() =~= a + b.drop_last());
    }
}

/// Every window that is returned has as many comments as are asked for, and is returned with their
/// number and the first of them.
pub proof fn law_returned_windows_are_dense(
    danmus: &Vec<DanmuEntry>,
    indices: &Vec<usize>,
    min_density: usize,
    res: Vec<Window>,
    a: int,
)
    requires
        indices@.len() == danmus@.len(),
        call_ensures(analyze_danmu_highlights, (danmus, indices, min_density), res),
        0 <= a < res@.len(),
    ensures
        res@[a].comment_count > 0,
        res@[a].comment_count >= min_density,
        res@[a].comment_count == comments_in(danmus.deep_view(), indices@, res@[a].index).len(),
        res@[a].sample_comments.deep_view().is_prefix_of(
            comments_in(danmus.deep_view(), indices@, res@[a].index),
        ),
        res@[a].sample_comments@.len() == (if res@[a].comment_count < 5 {
            res@[a].comment_count as int
        } else {
            5
        }),
{
    let index = res@[a].index;
    lemma_no_more_comments(danmus.deep_view(), indices@, index);
    assert(danmus.deep_view().len() == danmus@.len());
    assert(danmus.len() == danmus@.len());
    assert(res.deep_view().len() == res@.len());
    assert(res.deep_view()[a] == res@[a].deep_view());
    assert(res@[a].sample_comments.deep_view().len() == res@[a].sample_comments@.len());
}

/// A search without a keyword is refused, and any other finds what there is.
pub proof fn law_searches_need_a_keyword(
    danmus: &Vec<DanmuEntry>,
    keywords: &Vec<String>,
    res: Result<Vec<KeywordMatch>, String>,
)
    requires
        call_ensures(search_danmu_keywords, (danmus, keywords), res),
    ensures
        res is Ok <==> usable_keywords(keywords.deep_view()).len() > 0,
        res is Ok ==> res->Ok_0.deep_view() == matches_of(
            danmus.deep_view(),
            usable_keywords(keywords.deep_view()),
        ),
{
}

} // verus!
