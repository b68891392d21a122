use vstd::prelude::*;

use crate::text::{is_blank, is_whitespace, spec_is_whitespace};

verus! {

/// The words found in the first `n` characters of a text, and the word still
/// being read after them.
pub open spec fn words_upto(s: Seq<char>, n: int) -> (Seq<Seq<char>>, Seq<char>)
    decreases n,
{
    if n <= 0 {
        (Seq::empty(), Seq::empty())
    } else {
        let (done, current) = words_upto(s, n - 1);
        let c = s[n - 1];
        if spec_is_whitespace(c) {
            if current.len() > 0 {
                (done.push(current), Seq::empty())
            } else {
                (done, Seq::empty())
            }
        } else {
            (done, current.push(c))
        }
    }
}

/// The words of a text, as `str::split_whitespace` gives them: the maximal
/// runs of characters that are not white space.
pub open spec fn spec_words(s: Seq<char>) -> Seq<Seq<char>> {
    let (done, current) = words_upto(s, s.len() as int);
    if current.len() > 0 {
        done.push(current)
    } else {
        done
    }
}

/// Words joined with single spaces.
pub open spec fn join_words(ws: Seq<Seq<char>>) -> Seq<char>
    decreases ws.len(),
{
    if ws.len() == 0 {
        Seq::empty()
    } else if ws.len() == 1 {
        ws[0]
    } else {
        join_words(ws.drop_last()) + " "@ + ws.last()
    }
}

/// Splits a text into its words.
pub fn split_whitespace(text: &str) -> (res: Vec<String>)
    ensures
        res@.map_values(|w: String| w@) == spec_words(text@),
{
    let n = text.unicode_len();
    let mut done: Vec<String> = Vec::new();
    let mut current = String::new();
    let mut i: usize = 0;
    while i < n
        invariant
            n == text@.len(),
            i <= n,
            done@.map_values(|w: String| w@) == words_upto(text@, i as int).0,
            current@ == words_upto(text@, i as int).1,
        decreases n - i,
    {
        let c = text.get_char(i);
        if is_whitespace(c) {
            if current.unicode_len() > 0 {
                let ghost before = done@;
                done.push(current);
                current = String::new();
                assert(done@.map_values(|w: String| w@) =~= before.map_values(|w: String| w@).push(
                    words_upto(text@, i as int).1,
                ));
            }
        } else {
            current.append(text.substring_char(i, i + 1));
            assert(text@.subrange(i as int, i + 1) =~= seq![c]);
        }
        i = i + 1;
    }
    if current.unicode_len() > 0 {
        let ghost before = done@;
        done.push(current);
        assert(done@.map_values(|w: String| w@) =~= before.map_values(|w: String| w@).push(
            words_upto(text@, n as int).1,
        ));
    }
    done
}

/// Whether a table gives a width for every run of consecutive words:
/// `widths[i][m]` is the width of words `i` to `i + m` joined with spaces.
pub open spec fn widths_fit(widths: Seq<Vec<i32>>, count: int) -> bool {
    &&& widths.len() == count
    &&& forall|i: int| 0 <= i < count ==> #[trigger] widths[i]@.len() == count - i
}

/// The lines filled so far after the first `j` words, and the first word of
/// the line being filled: a word joins the current line when the line with it
/// fits in `max_width`, or when the line is still empty.
pub open spec fn fill_upto(widths: Seq<Vec<i32>>, max_width: int, j: int) -> (Seq<(int, int)>, int)
    decreases j,
{
    if j <= 0 {
        (Seq::empty(), 0)
    } else {
        let (lines, start) = fill_upto(widths, max_width, j - 1);
        if start == j - 1 || widths[start]@[j - 1 - start] <= max_width {
            (lines, start)
        } else {
            (lines.push((start, j - 1)), j - 1)
        }
    }
}

/// The lines, as runs of word positions `[from, to)`, that greedy filling makes of
/// `count` words.
pub open spec fn fill_lines(widths: Seq<Vec<i32>>, max_width: int, count: int) -> Seq<(int, int)> {
    let (lines, start) = fill_upto(widths, max_width, count);
    if start < count {
        lines.push((start, count))
    } else {
        lines
    }
}

/// The text of a line made of words `from` to `to - 1`.
pub open spec fn line_text(words: Seq<Seq<char>>, line: (int, int)) -> Seq<char> {
    join_words(words.subrange(line.0, line.1))
}

/// The lines of a text wrapped to a width: none for a blank text; the text
/// itself when it fits or holds no white space; otherwise its words filled
/// greedily into lines.
pub open spec fn spec_wrap(text: Seq<char>, text_width: int, widths: Seq<Vec<i32>>, max_width: int) -> Seq<Seq<char>> {
    if is_blank(text) {
        Seq::empty()
    } else if text_width <= max_width || forall|i: int|
        0 <= i < text.len() ==> !spec_is_whitespace(#[trigger] text[i]) {
        seq![text]
    } else {
        let words = spec_words(text);
        fill_lines(widths, max_width, words.len() as int).map_values(
            |line: (int, int)| line_text(words, line),
        )
    }
}

proof fn lemma_fill_bounds(widths: Seq<Vec<i32>>, max_width: int, j: int)
    requires
        j >= 0,
    ensures
        0 <= fill_upto(widths, max_width, j).1 <= j,
        j > 0 ==> fill_upto(widths, max_width, j).1 < j,
        forall|k: int|
            0 <= k < fill_upto(widths, max_width, j).0.len() ==> {
                let line = #[trigger] fill_upto(widths, max_width, j).0[k];
                0 <= line.0 < line.1 <= fill_upto(widths, max_width, j).1
            },
    decreases j,
{
    if j > 0 {
        lemma_fill_bounds(widths, max_width, j - 1);
    }
}

fn join_range(words: &Vec<String>, from: usize, to: usize) -> (res: String)
    requires
        from < to <= words@.len(),
    ensures
        res@ == join_words(words@.map_values(|w: String| w@).subrange(from as int, to as int)),
{
    let ghost all = words@.map_values(|w: String| w@);
    let mut out = words[from].clone();
    let mut k = from + 1;
    assert(all.subrange(from as int, from + 1) =~= seq![all[from as int]]);
    while k < to
        invariant
            all == words@.map_values(|w: String| w@),
            from < k <= to <= words@.len(),
            out@ == join_words(all.subrange(from as int, k as int)),
        decreases to - k,
    {
        out.append(" ");
        out.append(words[k].as_str());
        proof {
            reveal_strlit(" ");
            let next = all.subrange(from as int, k + 1);
            assert(next.drop_last() =~= all.subrange(from as int, k as int));
            assert(next.last() == all[k as int]);
        }
        k = k + 1;
    }
    out
}

/// Wraps a text into lines that fit `max_width` where its words allow.
///
/// `text_width` is the width of the whole text and `widths` the widths of the
/// runs of its words joined with spaces, as the font measures them (see
/// `widths_fit`); the words are those that `split_whitespace` gives.
pub fn wrap_text(text: &str, text_width: i32, widths: &Vec<Vec<i32>>, max_width: i32) -> (res: Vec<String>)
    requires
        widths_fit(widths@, spec_words(text@).len() as int),
    ensures
        res@.map_values(|line: String| line@) == spec_wrap(text@, text_width as int, widths@, max_width as int),
{
    let n = text.unicode_len();
    let mut blank = true;
    let mut i: usize = 0;
    while i < n
        invariant
            n == text@.len(),
            i <= n,
            blank == forall|k: int| 0 <= k < i ==> spec_is_whitespace(#[trigger] text@[k]),
        decreases n - i,
    {
        if !is_whitespace(text.get_char(i)) {
            blank = false;
        }
        i = i + 1;
    }
    if blank {
        let res: Vec<String> = Vec::new();
        assert(res@.map_values(|line: String| line@) =~= Seq::<Seq<char>>::empty());
        return res;
    }
    let mut spaced = false;
    let mut i: usize = 0;
    while i < n
        invariant
            n == text@.len(),
            i <= n,
            spaced == exists|k: int| 0 <= k < i && spec_is_whitespace(#[trigger] text@[k]),
        decreases n - i,
    {
        if is_whitespace(text.get_char(i)) {
            spaced = true;
        }
        i = i + 1;
    }
    if text_width <= max_width || !spaced {
        let mut res: Vec<String> = Vec::new();
        res.push(String::from_str(text));
        assert(res@.map_values(|line: String| line@) =~= seq![text@]);
        return res;
    }
    let words = split_whitespace(text);
    let ghost all = words@.map_values(|w: String| w@);
    let count = words.len();
    let mut lines: Vec<String> = Vec::new();
    let mut start: usize = 0;
    let mut j: usize = 0;
    while j < count
        invariant
            all == words@.map_values(|w: String| w@),
            all == spec_words(text@),
            count == words@.len(),
            widths_fit(widths@, count as int),
            j <= count,
            start == fill_upto(widths@, max_width as int, j as int).1,
            lines@.map_values(|line: String| line@) == fill_upto(
                widths@,
                max_width as int,
                j as int,
            ).0.map_values(|line: (int, int)| line_text(all, line)),
        decreases count - j,
    {
        proof {
            lemma_fill_bounds(widths@, max_width as int, j as int);
        }
        if start == j {
        } else {
            assert(widths@[start as int]@.len() == count - start);
            if widths[start][j - start] <= max_width {
            } else {
                let line = join_range(&words, start, j);
                let ghost before = lines@;
                lines.push(line);
                proof {
                    assert(lines@.map_values(|line: String| line@) =~= before.map_values(
                        |line: String| line@,
                    ).push(line_text(all, (start as int, j as int))));
                }
                start = j;
            }
        }
        j = j + 1;
    }
    proof {
        lemma_fill_bounds(widths@, max_width as int, count as int);
    }
    if start < count {
        let line = join_range(&words, start, count);
        let ghost before = lines@;
        lines.push(line);
        assert(lines@.map_values(|line: String| line@) =~= before.map_values(|line: String| line@).push(
            line_text(all, (start as int, count as int)),
        ));
    }
    lines
}


/// Whether word runs follow one another from `from`: each begins where the one
/// before it ends.
pub open spec fn consecutive_from(lines: Seq<(int, int)>, from: int) -> bool {
    &&& lines.len() > 0 ==> lines[0].0 == from
    &&& forall|k: int| 0 <= k < lines.len() - 1 ==> #[trigger] lines[k].1 == lines[k + 1].0
}

/// Whether a line of words `[from, to)` fits: it does when it holds one word,
/// and otherwise when its width is at most `max_width`.
pub open spec fn line_fits(widths: Seq<Vec<i32>>, max_width: int, line: (int, int)) -> bool {
    line.1 - line.0 > 1 ==> widths[line.0]@[line.1 - 1 - line.0] <= max_width
}

proof fn lemma_fill_partition(widths: Seq<Vec<i32>>, max_width: int, j: int)
    requires
        j >= 0,
    ensures
        ({
            let (lines, start) = fill_upto(widths, max_width, j);
            &&& consecutive_from(lines, 0)
            &&& lines.len() == 0 ==> start == 0
            &&& lines.len() > 0 ==> lines.last().1 == start
            &&& forall|k: int| 0 <= k < lines.len() ==> line_fits(widths, max_width, #[trigger] lines[k])
            &&& forall|k: int|
                0 <= k < lines.len() ==> widths[(#[trigger] lines[k]).0]@[lines[k].1 - lines[k].0]
                    > max_width
            &&& j > 0 ==> line_fits(widths, max_width, (start, j))
        }),
    decreases j,
{
    if j > 0 {
        lemma_fill_partition(widths, max_width, j - 1);
        lemma_fill_bounds(widths, max_width, j - 1);
        let (lines, start) = fill_upto(widths, max_width, j - 1);
        if start == j - 1 || widths[start]@[j - 1 - start] <= max_width {
        } else {
            let next = lines.push((start, j - 1));
            assert forall|k: int| 0 <= k < next.len() - 1 implies #[trigger] next[k].1 == next[k
                + 1].0 by {
                if k < lines.len() - 1 {
                    assert(next[k] == lines[k] && next[k + 1] == lines[k + 1]);
                }
            }
        }
    }
}

/// Filling words into lines keeps every word, in order: the lines are runs of
/// word positions that follow one another from the first word to the last; and
/// every line of more than one word fits in the width.
pub proof fn lemma_fill_lines_cover_words(widths: Seq<Vec<i32>>, max_width: int, count: int)
    requires
        count > 0,
    ensures
        consecutive_from(fill_lines(widths, max_width, count), 0),
        fill_lines(widths, max_width, count).len() > 0,
        fill_lines(widths, max_width, count).last().1 == count,
        forall|k: int|
            0 <= k < fill_lines(widths, max_width, count).len() ==> {
                let line = #[trigger] fill_lines(widths, max_width, count)[k];
                &&& line.0 < line.1
                &&& line_fits(widths, max_width, line)
            },
{
    lemma_fill_partition(widths, max_width, count);
    lemma_fill_bounds(widths, max_width, count);
    let (lines, start) = fill_upto(widths, max_width, count);
    let all = lines.push((start, count));
    assert forall|k: int| 0 <= k < all.len() - 1 implies #[trigger] all[k].1 == all[k + 1].0 by {
        if k < lines.len() - 1 {
            assert(all[k] == lines[k] && all[k + 1] == lines[k + 1]);
        }
    }
    assert forall|k: int| 0 <= k < all.len() implies {
        let line = #[trigger] all[k];
        &&& line.0 < line.1
        &&& line_fits(widths, max_width, line)
    } by {
        if k < lines.len() {
            assert(all[k] == lines[k]);
        }
    }
}

/// Filling is greedy: a line ends only where the next word no longer fits on
/// it, that is, every line but the last would be wider than `max_width` with
/// the next word added. With the lines covering the words in order and each
/// line of more than one word fitting, this leaves one way to fill.
pub proof fn lemma_fill_lines_greedy(widths: Seq<Vec<i32>>, max_width: int, count: int)
    requires
        count > 0,
    ensures
        forall|k: int|
            0 <= k < fill_lines(widths, max_width, count).len() - 1 ==> {
                let line = #[trigger] fill_lines(widths, max_width, count)[k];
                widths[line.0]@[line.1 - line.0] > max_width
            },
{
    lemma_fill_partition(widths, max_width, count);
    lemma_fill_bounds(widths, max_width, count);
    let (lines, start) = fill_upto(widths, max_width, count);
    let all = lines.push((start, count));
    assert forall|k: int| 0 <= k < all.len() - 1 implies {
        let line = #[trigger] all[k];
        widths[line.0]@[line.1 - line.0] > max_width
    } by {
        assert(all[k] == lines[k]);
    }
}

/// Whether a value fits in an `i32`.
pub open spec fn in_i32(v: int) -> bool {
    i32::MIN <= v <= i32::MAX
}

/// The height of a title with its wrapped subtitle under it: the title's line
/// and, where the subtitle has lines, the gap under the title, the height of
/// each line and the spacing between consecutive lines.
pub open spec fn spec_title_block_height(
    title_height: int,
    subtitle_height: int,
    title_spacing: int,
    line_spacing: int,
    lines: int,
) -> int {
    if lines == 0 {
        title_height
    } else {
        title_height + (subtitle_height * lines + line_spacing * (lines - 1) + title_spacing)
    }
}

/// Whether every step of the title block's height fits in an `i32`, the line
/// count included.
pub open spec fn block_height_fits(
    title_height: int,
    subtitle_height: int,
    title_spacing: int,
    line_spacing: int,
    lines: int,
) -> bool {
    &&& lines <= i32::MAX
    &&& lines > 0 ==> {
        &&& in_i32(subtitle_height * lines)
        &&& in_i32(line_spacing * (lines - 1))
        &&& in_i32(subtitle_height * lines + line_spacing * (lines - 1))
        &&& in_i32(subtitle_height * lines + line_spacing * (lines - 1) + title_spacing)
    }
    &&& in_i32(
        spec_title_block_height(title_height, subtitle_height, title_spacing, line_spacing, lines),
    )
}

/// Height of a title block, as `spec_title_block_height` states, or nothing
/// where a step of the sum leaves `i32`.
pub fn title_block_height(
    title_height: i32,
    subtitle_height: i32,
    title_spacing: i32,
    line_spacing: i32,
    lines: usize,
) -> (res: Option<i32>)
    ensures
        res == if block_height_fits(
            title_height as int,
            subtitle_height as int,
            title_spacing as int,
            line_spacing as int,
            lines as int,
        ) {
            Some(
                spec_title_block_height(
                    title_height as int,
                    subtitle_height as int,
                    title_spacing as int,
                    line_spacing as int,
                    lines as int,
                ) as i32,
            )
        } else {
            None::<i32>
        },
{
    if lines > 2147483647usize {
        return None;
    }
    if lines == 0 {
        return Some(title_height);
    }
    let count: i32 = lines as i32;
    let lines_height: i32 = match subtitle_height.checked_mul(count) {
        Some(v) => v,
        None => {
            return None;
        },
    };
    let gaps: i32 = match line_spacing.checked_mul(count - 1) {
        Some(v) => v,
        None => {
            return None;
        },
    };
    let body: i32 = match lines_height.checked_add(gaps) {
        Some(v) => v,
        None => {
            return None;
        },
    };
    let block: i32 = match body.checked_add(title_spacing) {
        Some(v) => v,
        None => {
            return None;
        },
    };
    title_height.checked_add(block)
}

/// The top of the subtitle line with index `i` under a title whose top is
/// `title_y`: the first sits the title's height and gap below the title's top,
/// and each next one a line height and a line spacing below the one before.
pub open spec fn spec_subtitle_top(
    title_y: int,
    title_height: int,
    title_spacing: int,
    step: int,
    i: int,
) -> int {
    title_y + title_height + title_spacing + i * step
}

/// Whether every position the subtitle lines are placed at fits in an
/// `i32`: the sums that give the first line's top, the step from line to
/// line, and the top of each line, the one after the last line included.
pub open spec fn tops_fit(
    title_y: int,
    title_height: int,
    title_spacing: int,
    subtitle_height: int,
    line_spacing: int,
    lines: int,
) -> bool {
    &&& in_i32(title_y + title_height)
    &&& in_i32(title_y + title_height + title_spacing)
    &&& lines > 0 ==> in_i32(subtitle_height + line_spacing)
    &&& forall|i: int|
        0 <= i <= lines ==> in_i32(
            #[trigger] spec_subtitle_top(
                title_y,
                title_height,
                title_spacing,
                subtitle_height + line_spacing,
                i,
            ),
        )
}

proof fn lemma_next_top(title_y: int, title_height: int, title_spacing: int, step: int, n: int)
    ensures
        spec_subtitle_top(title_y, title_height, title_spacing, step, n + 1) == spec_subtitle_top(
            title_y,
            title_height,
            title_spacing,
            step,
            n,
        ) + step,
{
    assert((n + 1) * step == n * step + step) by (nonlinear_arith);
}

/// The tops of `lines` subtitle lines, each a line height and a line spacing
/// below the one before, or nothing where a position leaves `i32`.
pub fn subtitle_tops(
    title_y: i32,
    title_height: i32,
    title_spacing: i32,
    subtitle_height: i32,
    line_spacing: i32,
    lines: usize,
) -> (res: Option<Vec<i32>>)
    ensures
        match res {
            Some(tops) => {
                &&& tops_fit(
                    title_y as int,
                    title_height as int,
                    title_spacing as int,
                    subtitle_height as int,
                    line_spacing as int,
                    lines as int,
                )
                &&& tops.len() == lines
                &&& forall|i: int|
                    0 <= i < lines ==> tops@[i] == spec_subtitle_top(
                        title_y as int,
                        title_height as int,
                        title_spacing as int,
                        subtitle_height + line_spacing,
                        i,
                    )
            },
            None => !tops_fit(
                title_y as int,
                title_height as int,
                title_spacing as int,
                subtitle_height as int,
                line_spacing as int,
                lines as int,
            ),
        },
{
    let ghost step_int: int = subtitle_height + line_spacing;
    let title_bottom: i32 = match title_y.checked_add(title_height) {
        Some(v) => v,
        None => {
            return None;
        },
    };
    let mut y: i32 = match title_bottom.checked_add(title_spacing) {
        Some(v) => v,
        None => {
            return None;
        },
    };
    let mut tops: Vec<i32> = Vec::new();
    if lines == 0 {
        assert forall|i: int| 0 <= i <= lines implies in_i32(
            #[trigger] spec_subtitle_top(title_y as int, title_height as int, title_spacing as int, step_int, i),
        ) by {
            assert(i == 0);
        }
        return Some(tops);
    }
    let step: i32 = match subtitle_height.checked_add(line_spacing) {
        Some(v) => v,
        None => {
            return None;
        },
    };
    let mut n: usize = 0;
    assert(y == spec_subtitle_top(title_y as int, title_height as int, title_spacing as int, step_int, 0));
    while n < lines
        invariant
            n <= lines,
            lines > 0,
            step == step_int,
            step_int == subtitle_height + line_spacing,
            in_i32(title_y + title_height),
            in_i32(title_y + title_height + title_spacing),
            in_i32(subtitle_height + line_spacing),
            tops.len() == n,
            y == spec_subtitle_top(title_y as int, title_height as int, title_spacing as int, step_int, n as int),
            forall|i: int|
                0 <= i <= n ==> in_i32(
                    #[trigger] spec_subtitle_top(
                        title_y as int,
                        title_height as int,
                        title_spacing as int,
                        step_int,
                        i,
                    ),
                ),
            forall|i: int|
                0 <= i < n ==> tops@[i] == spec_subtitle_top(
                    title_y as int,
                    title_height as int,
                    title_spacing as int,
                    step_int,
                    i,
                ),
        decreases lines - n,
    {
        tops.push(y);
        proof {
            lemma_next_top(title_y as int, title_height as int, title_spacing as int, step_int, n as int);
        }
        y = match y.checked_add(step) {
            Some(v) => v,
            None => {
                assert(!in_i32(
                    spec_subtitle_top(title_y as int, title_height as int, title_spacing as int, step_int, n + 1),
                ));
                assert(!tops_fit(
                    title_y as int,
                    title_height as int,
                    title_spacing as int,
                    subtitle_height as int,
                    line_spacing as int,
                    lines as int,
                )) by {
                    assert(0 <= n + 1 <= lines);
                }
                return None;
            },
        };
        n = n + 1;
    }
    Some(tops)
}

/// Half a height rounded toward zero, as integer division of an `i32` by two
/// rounds.
pub open spec fn spec_half(height: int) -> int {
    if height >= 0 {
        height / 2
    } else {
        -((-height) / 2)
    }
}

/// The top of a block of the given height centred on `center_y`, or nothing
/// where it leaves `i32`.
pub fn centered_top(center_y: i32, block_height: i32) -> (res: Option<i32>)
    ensures
        res == if in_i32(center_y - spec_half(block_height as int)) {
            Some((center_y - spec_half(block_height as int)) as i32)
        } else {
            None::<i32>
        },
{
    center_y.checked_sub(block_height / 2)
}

/// A text is kept on one line when it fits or cannot be broken, and a blank
/// text gives no line.
pub proof fn lemma_wrap_short_text(text: Seq<char>, text_width: int, widths: Seq<Vec<i32>>, max_width: int)
    ensures
        is_blank(text) ==> spec_wrap(text, text_width, widths, max_width).len() == 0,
        !is_blank(text) && text_width <= max_width ==> spec_wrap(text, text_width, widths, max_width)
            == seq![text],
        !is_blank(text) && (forall|i: int| 0 <= i < text.len() ==> !spec_is_whitespace(#[trigger] text[i]))
            ==> spec_wrap(text, text_width, widths, max_width) == seq![text],
{
}

/// The title block reaches from the title's top to the bottom of its last
/// subtitle line: with subtitle lines, its height is where the line after the
/// last would start, less the spacing below the last line; without any, it is
/// the title's own height.
pub proof fn lemma_block_spans_lines(
    title_y: int,
    title_height: int,
    title_spacing: int,
    subtitle_height: int,
    line_spacing: int,
    lines: int,
)
    requires
        lines >= 0,
    ensures
        lines == 0 ==> spec_title_block_height(title_height, subtitle_height, title_spacing, line_spacing, 0)
            == title_height,
        lines > 0 ==> title_y + spec_title_block_height(
            title_height,
            subtitle_height,
            title_spacing,
            line_spacing,
            lines,
        ) == spec_subtitle_top(
            title_y,
            title_height,
            title_spacing,
            subtitle_height + line_spacing,
            lines,
        ) - line_spacing,
        lines > 0 ==> spec_subtitle_top(title_y, title_height, title_spacing, subtitle_height + line_spacing, 0)
            == title_y + title_height + title_spacing,
{
    assert(lines * (subtitle_height + line_spacing) == subtitle_height * lines + line_spacing * lines)
        by (nonlinear_arith);
    assert(line_spacing * (lines - 1) == line_spacing * lines - line_spacing) by (nonlinear_arith);
}

/// Half a height is rounded toward zero: twice it is the height, or one less
/// for an odd positive height, or one more for an odd negative one.
pub proof fn lemma_half_toward_zero(height: int)
    ensures
        height >= 0 ==> 0 <= spec_half(height) && 2 * spec_half(height) <= height < 2 * spec_half(height) + 2,
        height < 0 ==> spec_half(height) <= 0 && 2 * spec_half(height) - 2 < height <= 2 * spec_half(height),
{
}

} // verus!
