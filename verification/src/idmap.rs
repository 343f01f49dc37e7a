//! The text that the kernel reads from `uid_map` and `gid_map`.

use crate::decimal::{decimal_nat, decimal_u32};
use crate::step::{Step, StepView};
use vstd::prelude::*;
use vstd::string::*;

verus! {

/// A range of ids inside a user namespace and the range outside that it
/// stands for.
#[derive(Clone, Copy, PartialEq, Eq, Debug, Structural)]
pub struct IdMapping {
    /// The first id of the range as seen inside the namespace.
    pub container_id: u32,
    /// The first id of the range as seen outside it.
    pub host_id: u32,
    /// The number of ids in the range. A range of none says nothing.
    pub size: u32,
}

/// One line of a map: `<container_id> <host_id> <size>` and a line feed.
pub open spec fn mapping_line(m: IdMapping) -> Seq<char> {
    decimal_nat(m.container_id as nat) + seq![' '] + decimal_nat(m.host_id as nat) + seq![' ']
        + decimal_nat(m.size as nat) + seq!['\n']
}

/// What one mapping adds to a map: its line, or nothing if its size is 0.
pub open spec fn entry_text(m: IdMapping) -> Seq<char> {
    if m.size != 0 {
        mapping_line(m)
    } else {
        Seq::empty()
    }
}

/// The text of a map: what each mapping adds, in the order of the list.
pub open spec fn mapping_text(maps: Seq<IdMapping>) -> Seq<char> {
    maps.flat_map(|m: IdMapping| entry_text(m))
}

/// Whether every mapping of the list has size 0.
pub open spec fn all_empty(maps: Seq<IdMapping>) -> bool {
    forall|i: int| 0 <= i < maps.len() ==> (#[trigger] maps[i]).size == 0
}

/// A list with one more mapping at its end has the text of the list,
/// followed by what the new mapping adds.
pub proof fn lemma_mapping_text_push(maps: Seq<IdMapping>, m: IdMapping)
    ensures
        mapping_text(maps.push(m)) == mapping_text(maps) + entry_text(m),
        mapping_text(Seq::empty()) == Seq::<char>::empty(),
{
    maps.lemma_flat_map_push(|m: IdMapping| entry_text(m), m);
    assert(Seq::<IdMapping>::empty().map_values(|m: IdMapping| entry_text(m)) =~= Seq::<
        Seq<char>,
    >::empty());
}

/// The text of two lists, one after the other, is the text of the first
/// followed by the text of the second.
pub proof fn lemma_mapping_text_concat(a: Seq<IdMapping>, b: Seq<IdMapping>)
    ensures
        mapping_text(a + b) == mapping_text(a) + mapping_text(b),
    decreases b.len(),
{
    lemma_mapping_text_push(a, a[0]);
    if b.len() == 0 {
        assert(a + b =~= a);
        assert(mapping_text(a) + mapping_text(b) =~= mapping_text(a));
    } else {
        let front = b.drop_last();
        lemma_mapping_text_concat(a, front);
        lemma_mapping_text_push(a + front, b.last());
        lemma_mapping_text_push(front, b.last());
        assert((a + front).push(b.last()) =~= a + b);
        assert(front.push(b.last()) =~= b);
        assert(mapping_text(a) + mapping_text(front) + entry_text(b.last()) =~= mapping_text(a) + (
        mapping_text(front) + entry_text(b.last())));
    }
}

/// A map has no text exactly if every mapping of it has size 0: then, and
/// only then, there is nothing to write.
pub proof fn lemma_no_text_iff_all_empty(maps: Seq<IdMapping>)
    ensures
        mapping_text(maps).len() == 0 <==> all_empty(maps),
    decreases maps.len(),
{
    if maps.len() == 0 {
        lemma_mapping_text_push(maps, arbitrary());
        assert(maps =~= Seq::empty());
    } else {
        let front = maps.drop_last();
        let last = maps.last();
        lemma_no_text_iff_all_empty(front);
        lemma_mapping_text_push(front, last);
        assert(front.push(last) =~= maps);
        assert(mapping_line(last).len() > 0);
        if all_empty(maps) {
            assert(last.size == 0);
            assert forall|i: int| 0 <= i < front.len() implies (#[trigger] front[i]).size == 0 by {
                assert(front[i] == maps[i]);
            }
        }
        if mapping_text(maps).len() == 0 {
            assert(last.size == 0);
            assert forall|i: int| 0 <= i < maps.len() implies (#[trigger] maps[i]).size == 0 by {
                if i < front.len() {
                    assert(front[i] == maps[i]);
                }
            }
        }
    }
}

fn render_line(m: &IdMapping) -> (line: String)
    ensures
        line@ == mapping_line(*m),
{
    let mut line = decimal_u32(m.container_id);
    let host = decimal_u32(m.host_id);
    let size = decimal_u32(m.size);
    line.append(" ");
    line.append(host.as_str());
    line.append(" ");
    line.append(size.as_str());
    line.append("\n");
    proof {
        reveal_strlit(" ");
        reveal_strlit("\n");
        assert(" "@ =~= seq![' ']);
        assert("\n"@ =~= seq!['\n']);
    }
    line
}

/// The text of the map that `maps` describes: one line for each mapping
/// whose size is not 0, in the order of the list.
pub fn render_mappings(maps: &[IdMapping]) -> (text: String)
    ensures
        text@ == mapping_text(maps@),
{
    let mut text = String::new();
    let mut i: usize = 0;
    proof {
        lemma_mapping_text_push(maps@, maps@[0]);
        assert(maps@.take(0) =~= Seq::empty());
    }
    while i < maps.len()
        invariant
            i <= maps.len(),
            text@ == mapping_text(maps@.take(i as int)),
        decreases maps.len() - i,
    {
        proof {
            lemma_mapping_text_push(maps@.take(i as int), maps@[i as int]);
            assert(maps@.take(i as int).push(maps@[i as int]) =~= maps@.take(i + 1));
        }
        if maps[i].size != 0 {
            let line = render_line(&maps[i]);
            text.append(line.as_str());
        }
        i = i + 1;
    }
    assert(maps@.take(i as int) =~= maps@);
    text
}

/// What has to be written to the map file at `path` for `maps` to take
/// effect: the whole text at once, or nothing at all where every mapping
/// has size 0. In that case the file is not even to be opened.
pub fn write_mappings(path: &str, maps: &[IdMapping]) -> (step: Option<Step>)
    ensures
        step is None <==> all_empty(maps@),
        step matches Some(write) ==> write@ == (StepView::WriteFile {
            path: path@,
            data: mapping_text(maps@),
        }),
{
    proof {
        lemma_no_text_iff_all_empty(maps@);
    }
    let data = render_mappings(maps);
    if data.as_str().is_empty() {
        None
    } else {
        Some(Step::WriteFile { path: String::from_str(path), data })
    }
}

} // verus!
