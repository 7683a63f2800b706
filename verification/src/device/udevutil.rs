use vstd::prelude::*;
use vstd::string::*;

verus! {

/// The position of the first colon in `text`; the length of `text` if it
/// holds none.
pub open spec fn first_colon(text: Seq<char>) -> int
    decreases text.len(),
{
    if text.len() == 0 {
        0
    } else if text[0] == ':' {
        0
    } else {
        1 + first_colon(text.drop_first())
    }
}

/// The tags that `text` lists: the pieces between its colons, the empty ones
/// left out.
pub open spec fn tags_of(text: Seq<char>) -> Seq<Seq<char>>
    decreases text.len(),
{
    if text.len() == 0 {
        Seq::empty()
    } else {
        let n = first_colon(text);
        if n == 0 {
            tags_of(text.skip(1))
        } else if 0 < n < text.len() {
            seq![text.take(n)] + tags_of(text.skip(n + 1))
        } else {
            seq![text]
        }
    }
}

/// `first_colon` finds a colon, or the end, and no colon stands before it.
pub proof fn lemma_first_colon(text: Seq<char>)
    ensures
        0 <= first_colon(text) <= text.len(),
        first_colon(text) < text.len() ==> text[first_colon(text)] == ':',
        forall|j: int| 0 <= j < first_colon(text) ==> text[j] != ':',
    decreases text.len(),
{
    if text.len() > 0 && text[0] != ':' {
        lemma_first_colon(text.drop_first());
        assert forall|j: int| 0 <= j < first_colon(text) implies text[j] != ':' by {
            if j > 0 {
                assert(text.drop_first()[j - 1] == text[j]);
            }
        }
    }
}

/// A position before which no colon stands, and which holds one or is the
/// end, is what `first_colon` finds.
pub proof fn lemma_first_colon_is(text: Seq<char>, n: int)
    requires
        0 <= n <= text.len(),
        n < text.len() ==> text[n] == ':',
        forall|j: int| 0 <= j < n ==> text[j] != ':',
    ensures
        first_colon(text) == n,
{
    lemma_first_colon(text);
    let found = first_colon(text);
    if found < n {
        assert(text[found] != ':');
    }
}

/// The tags of a piece of hardware, given its tag list as the hardware layer
/// holds it: the tags between colons.
pub fn udev_extract_tags(tag_list: Option<&str>) -> (tags: Option<Vec<String>>)
    ensures
        match tag_list {
            None => tags is None,
            Some(text) => tags matches Some(list) && Seq::new(list@.len(), |i: int| list@[i]@)
                == tags_of(text@),
        },
{
    let text = match tag_list {
        Some(text) => text,
        None => {
            return None;
        },
    };
    let len = text.unicode_len();
    let mut list: Vec<String> = Vec::new();
    let mut start: usize = 0;
    assert(text@.skip(0) =~= text@);
    assert(Seq::new(list@.len(), |i: int| list@[i]@) =~= Seq::<Seq<char>>::empty());
    while start < len
        invariant
            start <= len,
            len == text@.len(),
            Seq::new(list@.len(), |i: int| list@[i]@) + tags_of(text@.skip(start as int))
                == tags_of(text@),
        decreases len - start,
    {
        let mut end: usize = start;
        while end < len && text.get_char(end) != ':'
            invariant
                start <= end <= len,
                len == text@.len(),
                forall|j: int| start <= j < end ==> text@[j] != ':',
            decreases len - end,
        {
            end += 1;
        }
        let ghost rest = text@.skip(start as int);
        let ghost before = Seq::new(list@.len(), |i: int| list@[i]@);
        proof {
            assert forall|j: int| 0 <= j < end - start implies rest[j] != ':' by {
                assert(rest[j] == text@[start + j]);
            }
            lemma_first_colon_is(rest, end - start);
        }
        if end > start {
            let tag = text.substring_char(start, end);
            list.push(String::from_str(tag));
            proof {
                assert(tag@ =~= rest.take(end - start));
                assert(Seq::new(list@.len(), |i: int| list@[i]@) =~= before.push(tag@));
            }
        }
        if end < len {
            proof {
                assert(rest.skip(end - start + 1) =~= text@.skip(end + 1));
                if end > start {
                    assert(before.push(rest.take(end - start)) + tags_of(text@.skip(end + 1))
                        =~= before + (seq![rest.take(end - start)] + tags_of(
                        text@.skip(end + 1),
                    )));
                }
            }
            start = end + 1;
        } else {
            proof {
                assert(rest.take(end - start) =~= rest);
                assert(text@.skip(len as int) =~= Seq::<char>::empty());
                assert(before.push(rest) + Seq::<Seq<char>>::empty() =~= before + seq![rest]);
            }
            start = len;
        }
    }
    proof {
        assert(text@.skip(start as int) =~= Seq::<char>::empty());
        assert(Seq::new(list@.len(), |i: int| list@[i]@) + Seq::<Seq<char>>::empty() =~= Seq::new(
            list@.len(),
            |i: int| list@[i]@,
        ));
    }
    Some(list)
}

} // verus!
