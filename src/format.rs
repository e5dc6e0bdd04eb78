use vstd::prelude::*;

verus! {

/// The start of a line that holds a pending item: a tag, a colon and a space.
pub const TODO_TAG: &'static str = "TODO: ";

/// The start of a line that holds a completed item.
pub const DONE_TAG: &'static str = "DONE: ";

pub open spec fn todo_tag() -> Seq<char> {
    seq!['T', 'O', 'D', 'O', ':', ' ']
}

pub open spec fn done_tag() -> Seq<char> {
    seq!['D', 'O', 'N', 'E', ':', ' ']
}

/// One line of the file: the tag, the item's text, a newline.
pub open spec fn item_line(tag: Seq<char>, item: Seq<char>) -> Seq<char> {
    tag + item + seq!['\n']
}

/// One line for each item, in order, each with the same tag.
pub open spec fn tagged_lines(tag: Seq<char>, items: Seq<Seq<char>>) -> Seq<char>
    decreases items.len(),
{
    if items.len() == 0 {
        Seq::empty()
    } else {
        tagged_lines(tag, items.drop_last()) + item_line(tag, items.last())
    }
}

/// The whole file: the pending items, then the completed ones.
pub open spec fn file_text(pending: Seq<Seq<char>>, done: Seq<Seq<char>>) -> Seq<char> {
    tagged_lines(todo_tag(), pending) + tagged_lines(done_tag(), done)
}

pub proof fn lemma_tags()
    ensures
        TODO_TAG@ == todo_tag(),
        DONE_TAG@ == done_tag(),
{
    reveal_strlit("TODO: ");
    reveal_strlit("DONE: ");
    assert(TODO_TAG@ =~= todo_tag());
    assert(DONE_TAG@ =~= done_tag());
}

/// Appends one line for each item to `out`.
fn append_lines(out: &mut String, tag: &str, items: &Vec<String>)
    ensures
        final(out)@ == old(out)@ + tagged_lines(tag@, items@.map_values(|s: String| s@)),
{
    let ghost start = out@;
    let ghost views = items@.map_values(|s: String| s@);
    let mut i: usize = 0;
    while i < items.len()
        invariant
            i <= items.len(),
            views == items@.map_values(|s: String| s@),
            out@ == start + tagged_lines(tag@, views.subrange(0, i as int)),
        decreases items.len() - i,
    {
        out.append(tag);
        out.append(items[i].as_str());
        out.append("\n");
        proof {
            let next = views.subrange(0, i + 1);
            assert(next.drop_last() =~= views.subrange(0, i as int));
            assert(next.last() == items@[i as int]@);
            reveal_strlit("\n");
            assert("\n"@ =~= seq!['\n']);
            assert(tagged_lines(tag@, next) == tagged_lines(tag@, views.subrange(0, i as int))
                + item_line(tag@, items@[i as int]@));
            assert(out@ =~= start + tagged_lines(tag@, next));
        }
        i = i + 1;
    }
    assert(views.subrange(0, i as int) =~= views);
}

/// The text of the file that holds `pending` and `done`.
pub fn file_contents(pending: &Vec<String>, done: &Vec<String>) -> (r: String)
    ensures
        r@ == file_text(
            pending@.map_values(|s: String| s@),
            done@.map_values(|s: String| s@),
        ),
{
    proof {
        lemma_tags();
    }
    let mut out = String::new();
    append_lines(&mut out, TODO_TAG, pending);
    append_lines(&mut out, DONE_TAG, done);
    out
}

/// A line that a newline ended, without the carriage return, if any, that
/// came just before that newline.
pub open spec fn without_cr(line: Seq<char>) -> Seq<char> {
    if line.len() > 0 && line.last() == '\r' {
        line.drop_last()
    } else {
        line
    }
}

/// What reading `t` from the start leaves: the lines that a newline has ended
/// (each without a carriage return just before its newline), and the
/// characters read since the last newline.
pub open spec fn scan(t: Seq<char>) -> (Seq<Seq<char>>, Seq<char>)
    decreases t.len(),
{
    if t.len() == 0 {
        (Seq::empty(), Seq::empty())
    } else {
        let (lines, rest) = scan(t.drop_last());
        if t.last() == '\n' {
            (lines.push(without_cr(rest)), Seq::empty())
        } else {
            (lines, rest.push(t.last()))
        }
    }
}

/// The lines of `t`: split at each newline, and the carriage return of a
/// CR LF pair dropped. A last line that no newline ends is counted, as it
/// stands, only where it is not empty.
pub open spec fn lines_of(t: Seq<char>) -> Seq<Seq<char>> {
    let (lines, rest) = scan(t);
    if rest.len() > 0 {
        lines.push(rest)
    } else {
        lines
    }
}

pub open spec fn has_prefix(line: Seq<char>, tag: Seq<char>) -> bool {
    tag.len() <= line.len() && line.subrange(0, tag.len() as int) == tag
}

/// The items of the lines that start with `tag`, with the tag taken off, in order.
pub open spec fn items_tagged(lines: Seq<Seq<char>>, tag: Seq<char>) -> Seq<Seq<char>>
    decreases lines.len(),
{
    if lines.len() == 0 {
        Seq::empty()
    } else {
        let before = items_tagged(lines.drop_last(), tag);
        let line = lines.last();
        if has_prefix(line, tag) {
            before.push(line.subrange(tag.len() as int, line.len() as int))
        } else {
            before
        }
    }
}

/// The pending items that the file text `t` holds.
pub open spec fn parsed_pending(t: Seq<char>) -> Seq<Seq<char>> {
    items_tagged(lines_of(t), todo_tag())
}

/// The completed items that the file text `t` holds.
pub open spec fn parsed_done(t: Seq<char>) -> Seq<Seq<char>> {
    items_tagged(lines_of(t), done_tag())
}

pub open spec fn texts(v: Seq<String>) -> Seq<Seq<char>> {
    v.map_values(|s: String| s@)
}

fn chars_of(s: &str) -> (r: Vec<char>)
    ensures
        r@ == s@,
{
    let mut r: Vec<char> = Vec::new();
    for c in it: s.chars()
        invariant
            r@ == it.seq().subrange(0, it.index() as int),
    {
        r.push(c);
    }
    r
}

/// Whether the characters `cs[start..end]` begin with `tag`.
fn has_tag(cs: &Vec<char>, start: usize, end: usize, tag: &str) -> (r: bool)
    requires
        start <= end <= cs.len(),
    ensures
        r == has_prefix(cs@.subrange(start as int, end as int), tag@),
{
    let ghost line = cs@.subrange(start as int, end as int);
    let n = tag.unicode_len();
    if n > end - start {
        return false;
    }
    let mut k: usize = 0;
    while k < n
        invariant
            n == tag@.len(),
            n <= end - start,
            start <= end <= cs.len(),
            line == cs@.subrange(start as int, end as int),
            k <= n,
            line.subrange(0, k as int) == tag@.subrange(0, k as int),
        decreases n - k,
    {
        if cs[start + k] != tag.get_char(k) {
            assert(line.subrange(0, n as int)[k as int] != tag@[k as int]);
            return false;
        }
        assert(line.subrange(0, k + 1) =~= line.subrange(0, k as int).push(line[k as int]));
        assert(tag@.subrange(0, k + 1) =~= tag@.subrange(0, k as int).push(tag@[k as int]));
        k = k + 1;
    }
    assert(tag@.subrange(0, n as int) =~= tag@);
    true
}

/// Files the line `text[start..end]` under the list its tag names, if any.
fn take_line(
    text: &str,
    cs: &Vec<char>,
    start: usize,
    end: usize,
    pending: &mut Vec<String>,
    done: &mut Vec<String>,
)
    requires
        cs@ == text@,
        start <= end <= cs.len(),
    ensures
        ({
            let line = text@.subrange(start as int, end as int);
            &&& texts(final(pending)@) == if has_prefix(line, todo_tag()) {
                texts(old(pending)@).push(
                    line.subrange(todo_tag().len() as int, line.len() as int),
                )
            } else {
                texts(old(pending)@)
            }
            &&& texts(final(done)@) == if has_prefix(line, done_tag()) {
                texts(old(done)@).push(
                    line.subrange(done_tag().len() as int, line.len() as int),
                )
            } else {
                texts(old(done)@)
            }
        }),
{
    proof {
        lemma_tags();
    }
    let ghost line = text@.subrange(start as int, end as int);
    if has_tag(cs, start, end, TODO_TAG) {
        let skip = TODO_TAG.unicode_len();
        let item = String::from_str(text.substring_char(start + skip, end));
        assert(item@ =~= line.subrange(skip as int, line.len() as int));
        pending.push(item);
        assert(texts(pending@) =~= texts(old(pending)@).push(item@));
        assert(!has_prefix(line, done_tag())) by {
            assert(line[0] == 'T');
        }
    } else if has_tag(cs, start, end, DONE_TAG) {
        let skip = DONE_TAG.unicode_len();
        let item = String::from_str(text.substring_char(start + skip, end));
        assert(item@ =~= line.subrange(skip as int, line.len() as int));
        done.push(item);
        assert(texts(done@) =~= texts(old(done)@).push(item@));
    }
}

/// Reads the pending and the completed items out of the text of a file.
/// A line that starts with neither tag is passed over.
pub fn parse_items(text: &str) -> (r: (Vec<String>, Vec<String>))
    ensures
        texts(r.0@) == parsed_pending(text@),
        texts(r.1@) == parsed_done(text@),
{
    let cs = chars_of(text);
    let n = cs.len();
    let mut pending: Vec<String> = Vec::new();
    let mut done: Vec<String> = Vec::new();
    let mut start: usize = 0;
    let mut i: usize = 0;
    let ghost mut lines: Seq<Seq<char>> = Seq::empty();
    assert(texts(pending@) =~= Seq::<Seq<char>>::empty());
    assert(texts(done@) =~= Seq::<Seq<char>>::empty());
    assert(text@.subrange(0, 0) =~= Seq::<char>::empty());
    while i < n
        invariant
            n == cs.len(),
            cs@ == text@,
            start <= i <= n,
            scan(text@.subrange(0, i as int)) == (lines, text@.subrange(start as int, i as int)),
            texts(pending@) == items_tagged(lines, todo_tag()),
            texts(done@) == items_tagged(lines, done_tag()),
        decreases n - i,
    {
        let ghost prev = text@.subrange(0, i as int);
        let ghost next = text@.subrange(0, i + 1);
        assert(next.drop_last() =~= prev);
        assert(next.last() == cs@[i as int]);
        if cs[i] == '\n' {
            let end = if i > start && cs[i - 1] == '\r' {
                i - 1
            } else {
                i
            };
            take_line(text, &cs, start, end, &mut pending, &mut done);
            proof {
                let line = text@.subrange(start as int, end as int);
                assert(line =~= without_cr(text@.subrange(start as int, i as int)));
                assert(lines.push(line).drop_last() =~= lines);
                lines = lines.push(line);
            }
            start = i + 1;
            assert(text@.subrange(start as int, start as int) =~= Seq::<char>::empty());
        } else {
            assert(text@.subrange(start as int, i + 1) =~= text@.subrange(
                start as int,
                i as int,
            ).push(cs@[i as int]));
        }
        i = i + 1;
    }
    assert(text@.subrange(0, n as int) =~= text@);
    if start < n {
        take_line(text, &cs, start, n, &mut pending, &mut done);
        proof {
            let line = text@.subrange(start as int, n as int);
            assert(lines.push(line).drop_last() =~= lines);
        }
    }
    (pending, done)
}

pub open spec fn no_newline(item: Seq<char>) -> bool {
    forall|k: int| 0 <= k < item.len() ==> item[k] != '\n'
}

/// An item that the file keeps as it is: no newline in it, and no carriage
/// return at its end (which reading would take for half of a CR LF pair).
pub open spec fn storable(item: Seq<char>) -> bool {
    no_newline(item) && !(item.len() > 0 && item.last() == '\r')
}

/// Reading characters that hold no newline only lengthens the unfinished line.
proof fn lemma_scan_plain(a: Seq<char>, b: Seq<char>)
    requires
        no_newline(b),
    ensures
        scan(a + b) == (scan(a).0, scan(a).1 + b),
    decreases b.len(),
{
    if b.len() == 0 {
        assert(a + b =~= a);
        assert(scan(a).1 + b =~= scan(a).1);
    } else {
        let c = b.drop_last();
        lemma_scan_plain(a, c);
        assert((a + b).drop_last() =~= a + c);
        assert(scan(a).1 + c.push(b.last()) =~= scan(a).1 + b);
        assert(c.push(b.last()) =~= b);
    }
}

/// After whole lines, the lines of `tagged_lines` come next, each its tag and its item.
proof fn lemma_scan_tagged(a: Seq<char>, tag: Seq<char>, items: Seq<Seq<char>>)
    requires
        scan(a).1.len() == 0,
        no_newline(tag),
        tag.len() > 0,
        tag.last() != '\r',
        forall|i: int| 0 <= i < items.len() ==> storable(#[trigger] items[i]),
    ensures
        scan(a + tagged_lines(tag, items)) == (
            scan(a).0 + items.map_values(|item: Seq<char>| tag + item),
            Seq::<char>::empty(),
        ),
    decreases items.len(),
{
    let f = |item: Seq<char>| tag + item;
    if items.len() == 0 {
        assert(a + tagged_lines(tag, items) =~= a);
        assert(scan(a).0 + items.map_values(f) =~= scan(a).0);
        assert(scan(a).1 =~= Seq::<char>::empty());
    } else {
        let before = items.drop_last();
        let item = items.last();
        lemma_scan_tagged(a, tag, before);
        let b = a + tagged_lines(tag, before);
        let plain = tag + item;
        assert(no_newline(plain)) by {
            assert forall|k: int| 0 <= k < plain.len() implies plain[k] != '\n' by {
                if k < tag.len() {
                    assert(plain[k] == tag[k]);
                } else {
                    assert(plain[k] == item[k - tag.len()]);
                }
            }
        }
        lemma_scan_plain(b, plain);
        assert(scan(b).1 + plain =~= plain);
        assert(storable(items[items.len() - 1]));
        assert(without_cr(plain) == plain);
        let whole = b + plain + seq!['\n'];
        assert(whole.drop_last() =~= b + plain);
        assert(a + tagged_lines(tag, items) =~= whole);
        assert(scan(a).0 + items.map_values(f) =~= (scan(a).0 + before.map_values(f)).push(plain));
    }
}

proof fn lemma_items_tagged_concat(ls: Seq<Seq<char>>, ms: Seq<Seq<char>>, tag: Seq<char>)
    ensures
        items_tagged(ls + ms, tag) == items_tagged(ls, tag) + items_tagged(ms, tag),
    decreases ms.len(),
{
    if ms.len() == 0 {
        assert(ls + ms =~= ls);
        assert(items_tagged(ls, tag) + items_tagged(ms, tag) =~= items_tagged(ls, tag));
    } else {
        lemma_items_tagged_concat(ls, ms.drop_last(), tag);
        assert((ls + ms).drop_last() =~= ls + ms.drop_last());
        assert((ls + ms).last() == ms.last());
        let line = ms.last();
        if has_prefix(line, tag) {
            assert(items_tagged(ls, tag) + items_tagged(ms, tag) =~= (items_tagged(ls, tag)
                + items_tagged(ms.drop_last(), tag)).push(
                line.subrange(tag.len() as int, line.len() as int),
            ));
        }
    }
}

/// Lines made with `made` are read back under `read`: all of them where the
/// two tags are one, none where they differ in their first character.
proof fn lemma_items_tagged_made(made: Seq<char>, read: Seq<char>, items: Seq<Seq<char>>)
    requires
        made.len() > 0,
        read.len() == made.len(),
        made == read || made[0] != read[0],
    ensures
        items_tagged(items.map_values(|item: Seq<char>| made + item), read) == if made == read {
            items
        } else {
            Seq::<Seq<char>>::empty()
        },
    decreases items.len(),
{
    let f = |item: Seq<char>| made + item;
    let lines = items.map_values(f);
    if items.len() == 0 {
        assert(lines =~= Seq::<Seq<char>>::empty());
    } else {
        let before = items.drop_last();
        lemma_items_tagged_made(made, read, before);
        assert(lines.drop_last() =~= before.map_values(f));
        let line = lines.last();
        assert(line == made + items.last());
        if made == read {
            assert(line.subrange(0, read.len() as int) =~= read);
            assert(line.subrange(read.len() as int, line.len() as int) =~= items.last());
            assert(before.push(items.last()) =~= items);
        } else {
            assert(line.subrange(0, read.len() as int)[0] != read[0]);
        }
    }
}

/// Writing the items out and reading the text back gives the same items, in
/// the same order, wherever no item holds a newline or ends in a carriage return.
pub proof fn lemma_round_trip(pending: Seq<Seq<char>>, done: Seq<Seq<char>>)
    requires
        forall|i: int| 0 <= i < pending.len() ==> storable(#[trigger] pending[i]),
        forall|i: int| 0 <= i < done.len() ==> storable(#[trigger] done[i]),
    ensures
        parsed_pending(file_text(pending, done)) == pending,
        parsed_done(file_text(pending, done)) == done,
{
    let e = Seq::<char>::empty();
    assert(scan(e) == (Seq::<Seq<char>>::empty(), Seq::<char>::empty()));
    assert(no_newline(todo_tag()));
    assert(no_newline(done_tag()));
    lemma_scan_tagged(e, todo_tag(), pending);
    let first = e + tagged_lines(todo_tag(), pending);
    assert(first =~= tagged_lines(todo_tag(), pending));
    lemma_scan_tagged(first, done_tag(), done);
    let ps = pending.map_values(|item: Seq<char>| todo_tag() + item);
    let ds = done.map_values(|item: Seq<char>| done_tag() + item);
    assert(Seq::<Seq<char>>::empty() + ps =~= ps);
    assert(first + tagged_lines(done_tag(), done) =~= file_text(pending, done));
    assert(lines_of(file_text(pending, done)) == ps + ds);
    lemma_items_tagged_concat(ps, ds, todo_tag());
    lemma_items_tagged_concat(ps, ds, done_tag());
    lemma_items_tagged_made(todo_tag(), todo_tag(), pending);
    lemma_items_tagged_made(done_tag(), todo_tag(), done);
    lemma_items_tagged_made(todo_tag(), done_tag(), pending);
    lemma_items_tagged_made(done_tag(), done_tag(), done);
    assert(items_tagged(ps, todo_tag()) + Seq::<Seq<char>>::empty() =~= pending);
    assert(Seq::<Seq<char>>::empty() + items_tagged(ds, done_tag()) =~= done);
}

} // verus!
