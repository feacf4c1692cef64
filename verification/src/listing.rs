//! The partition table as text, and picking partitions by name.
use vstd::prelude::*;
use vstd::string::StrSliceExecFns;
use crate::metadata::image_size;
use crate::structs::{DeltaArchiveManifest, PartitionUpdate, same_partition};
use crate::text::{push_char, push_str};
use crate::utils::{format_size, size_text};

verus! {

/// Width of the name column of the partition table.
pub const NAME_WIDTH: usize = 20;

/// Width of the size column of the partition table.
pub const SIZE_WIDTH: usize = 15;

/// Length of the rule under the table's heading.
pub const RULE_WIDTH: usize = 35;

/// `s` followed by spaces up to `w` characters; unchanged when already as wide.
pub open spec fn pad_right(s: Seq<char>, w: nat) -> Seq<char> {
    if s.len() >= w {
        s
    } else {
        s + Seq::new((w - s.len()) as nat, |_i: int| ' ')
    }
}

/// A table row: the name and the size cell, each left-aligned in its column.
pub open spec fn table_row(name: Seq<char>, cell: Seq<char>) -> Seq<char> {
    pad_right(name, NAME_WIDTH as nat) + seq![' '] + pad_right(cell, SIZE_WIDTH as nat)
}

pub open spec fn heading_text() -> Seq<char> {
    table_row(
        seq!['P', 'a', 'r', 't', 'i', 't', 'i', 'o', 'n', ' ', 'N', 'a', 'm', 'e'],
        seq!['S', 'i', 'z', 'e'],
    )
}

/// The size cell of a partition: its image size, or "Unknown" when the size is
/// zero or not given.
pub open spec fn size_cell(p: PartitionUpdate) -> Seq<char> {
    if image_size(p) > 0 {
        size_text(image_size(p))
    } else {
        seq!['U', 'n', 'k', 'n', 'o', 'w', 'n']
    }
}

/// The lines of the partition table: heading, rule, one row per partition.
pub open spec fn table_lines(m: DeltaArchiveManifest) -> Seq<Seq<char>> {
    seq![heading_text(), Seq::new(RULE_WIDTH as nat, |_i: int| '-')]
        + Seq::new(m.partitions@.len(), |i: int| table_row(m.partitions@[i].partition_name@, size_cell(m.partitions@[i])))
}

fn push_padded(s: &mut String, piece: &String, w: usize)
    ensures
        final(s)@ == old(s)@ + pad_right(piece@, w as nat),
{
    s.append(piece.as_str());
    let n = piece.as_str().unicode_len();
    if n < w {
        let mut k: usize = n;
        while k < w
            invariant
                n <= k <= w,
                n == piece@.len(),
                s@ == old(s)@ + piece@ + Seq::new((k - n) as nat, |_i: int| ' '),
            decreases w - k,
        {
            proof { reveal_strlit(" "); }
            s.append(" ");
            k = k + 1;
            assert(s@ =~= old(s)@ + piece@ + Seq::new((k - n) as nat, |_i: int| ' '));
        }
    }
    assert(s@ =~= old(s)@ + pad_right(piece@, w as nat));
}

fn row(name: &String, cell: &String) -> (r: String)
    ensures
        r@ == table_row(name@, cell@),
{
    let mut s = String::new();
    push_padded(&mut s, name, NAME_WIDTH);
    proof { reveal_strlit(" "); }
    s.append(" ");
    push_padded(&mut s, cell, SIZE_WIDTH);
    assert(s@ =~= table_row(name@, cell@));
    s
}

fn partition_row(p: &PartitionUpdate) -> (r: String)
    ensures
        r@ == table_row(p.partition_name@, size_cell(*p)),
{
    let size: u64 = match &p.new_partition_info {
        Some(info) => match info.size {
            Some(v) => v,
            None => 0,
        },
        None => 0,
    };
    let mut cell = String::new();
    if size > 0 {
        cell = format_size(size);
    } else {
        proof { reveal_strlit("Unknown"); }
        push_str(&mut cell, "Unknown");
    }
    row(&p.partition_name, &cell)
}

/// The partition table of a manifest, line by line: a heading, a rule of
/// dashes, then each partition's name and image size.
pub fn partition_table(manifest: &DeltaArchiveManifest) -> (r: Vec<String>)
    ensures
        r@.len() == table_lines(*manifest).len(),
        forall|i: int| 0 <= i < r@.len() ==> (#[trigger] r@[i])@ == table_lines(*manifest)[i],
{
    let mut lines: Vec<String> = Vec::new();
    let mut name = String::new();
    proof { reveal_strlit("Partition Name"); }
    push_str(&mut name, "Partition Name");
    let mut size = String::new();
    proof { reveal_strlit("Size"); }
    push_str(&mut size, "Size");
    lines.push(row(&name, &size));
    let mut rule = String::new();
    let mut k: usize = 0;
    while k < RULE_WIDTH
        invariant
            k <= RULE_WIDTH,
            rule@ == Seq::new(k as nat, |_i: int| '-'),
        decreases RULE_WIDTH - k,
    {
        proof { reveal_strlit("-"); }
        rule.append("-");
        k = k + 1;
        assert(rule@ =~= Seq::new(k as nat, |_i: int| '-'));
    }
    lines.push(rule);
    let ghost t = table_lines(*manifest);
    assert(lines@[0]@ == t[0]);
    assert(lines@[1]@ == t[1]);
    let mut i: usize = 0;
    while i < manifest.partitions.len()
        invariant
            i <= manifest.partitions@.len(),
            t == table_lines(*manifest),
            lines@.len() == i + 2,
            forall|j: int| 0 <= j < lines@.len() ==> (#[trigger] lines@[j])@ == t[j],
        decreases manifest.partitions@.len() - i,
    {
        let line = partition_row(&manifest.partitions[i]);
        lines.push(line);
        i = i + 1;
    }
    lines
}

// ---------------------------------------------------------------------------
// Picking partitions by name

/// `name` is one of the comma-separated fields of `list`.
pub open spec fn is_field(list: Seq<char>, name: Seq<char>) -> bool {
    !name.contains(',') && exists|i: int| #[trigger] field_at(list, name, i)
}

/// `name` stands in `list` at `i`, between commas or the ends of `list`.
pub open spec fn field_at(list: Seq<char>, name: Seq<char>, i: int) -> bool {
    &&& 0 <= i
    &&& i + name.len() <= list.len()
    &&& list.subrange(i, i + name.len()) == name
    &&& (i == 0 || list[i - 1] == ',')
    &&& (i + name.len() == list.len() || list[i + name.len()] == ',')
}

/// `ahash::AHashSet`, a hash set with ahash's hasher.
#[verifier::external_type_specification]
#[verifier::external_body]
#[verifier::reject_recursive_types(T)]
#[verifier::reject_recursive_types(S)]
pub struct ExAHashSet<T, S>(ahash::AHashSet<T, S>);

/// `ahash::RandomState`, the default hasher of an `AHashSet`.
#[verifier::external_type_specification]
#[verifier::external_body]
pub struct ExAHashRandomState(ahash::RandomState);

/// The names an `ahash::AHashSet` of strings holds.
pub uninterp spec fn name_set_contents(s: ahash::AHashSet<String>) -> Set<Seq<char>>;

/// Calls `ahash::AHashSet::new`: an empty set.
#[verifier::external_body]
pub(crate) fn name_set_new() -> (r: ahash::AHashSet<String>)
    ensures
        name_set_contents(r) == Set::<Seq<char>>::empty(),
{
    ahash::AHashSet::new()
}

/// Calls `HashSet::insert` on the set (reached through `AHashSet`'s
/// `DerefMut`): afterwards the set also holds `name`.
#[verifier::external_body]
fn name_set_insert(s: &mut ahash::AHashSet<String>, name: String)
    ensures
        name_set_contents(*final(s)) == name_set_contents(*old(s)).insert(name@),
{
    s.insert(name);
}

/// Calls `HashSet::contains` on the set (reached through `AHashSet`'s
/// `Deref`): whether the set holds `name`.
#[verifier::external_body]
pub(crate) fn name_set_contains(s: &ahash::AHashSet<String>, name: &str) -> (r: bool)
    ensures
        r == name_set_contents(*s).contains(name@),
{
    s.contains(name)
}

/// `name` is a field of `list` that starts before position `start`.
pub open spec fn field_before(list: Seq<char>, name: Seq<char>, start: int) -> bool {
    !name.contains(',') && exists|i: int| 0 <= i < start && #[trigger] field_at(list, name, i)
}

/// A field starts at or before `j`, where `j` ends the field that begins at
/// `start`, exactly when it starts before `start` or is that field.
proof fn lemma_field_ends(list: Seq<char>, start: int, j: int, n: Seq<char>)
    requires
        0 <= start <= j <= list.len(),
        start == 0 || list[start - 1] == ',',
        forall|k: int| start <= k < j ==> list[k] != ',',
        j == list.len() || list[j] == ',',
    ensures
        (!n.contains(',') && exists|i: int| 0 <= i <= j && #[trigger] field_at(list, n, i)) <==> (
        field_before(list, n, start) || n == list.subrange(start, j)),
{
    let f = list.subrange(start, j);
    assert(!f.contains(',')) by {
        if f.contains(',') {
            let k = choose|k: int| 0 <= k < f.len() && f[k] == ',';
            assert(list[start + k] == ',');
        }
    }
    assert(field_at(list, f, start));
    if !n.contains(',') && exists|i: int| 0 <= i <= j && #[trigger] field_at(list, n, i) {
        let i = choose|i: int| 0 <= i <= j && #[trigger] field_at(list, n, i);
        if i >= start {
            if i > start {
                assert(list[i - 1] != ',');
            }
            let e = start + n.len();
            if e < j {
                assert(list[e] == ',');
            } else if e > j {
                assert(list.subrange(start, e)[j - start] == list[j]);
                assert(n[j - start] == ',');
            }
            assert(n =~= f);
        }
    }
    if field_before(list, n, start) {
        let i = choose|i: int| 0 <= i < start && #[trigger] field_at(list, n, i);
        assert(field_at(list, n, i));
    }
}

/// The comma-separated names of an image list, gathered into a set.
pub fn listed_names(images: &str) -> (r: ahash::AHashSet<String>)
    ensures
        forall|n: Seq<char>| #[trigger] name_set_contents(r).contains(n) <==> is_field(images@, n),
{
    let len = images.unicode_len();
    let mut set = name_set_new();
    let mut field = String::new();
    let mut start: usize = 0;
    let mut j: usize = 0;
    while j < len
        invariant
            len == images@.len(),
            start <= j <= len,
            start == 0 || images@[start - 1] == ',',
            forall|k: int| start <= k < j ==> images@[k] != ',',
            field@ == images@.subrange(start as int, j as int),
            forall|n: Seq<char>| #[trigger] name_set_contents(set).contains(n) <==> field_before(images@, n, start as int),
        decreases len - j,
    {
        let c = images.get_char(j);
        if c == ',' {
            let ghost before = name_set_contents(set);
            let ghost f = field@;
            name_set_insert(&mut set, field);
            assert forall|n: Seq<char>| #[trigger] name_set_contents(set).contains(n) <==> field_before(
                images@,
                n,
                j + 1,
            ) by {
                lemma_field_ends(images@, start as int, j as int, n);
                assert(before.contains(n) <==> field_before(images@, n, start as int));
                assert(field_before(images@, n, j + 1) <==> (!n.contains(',') && exists|i: int|
                    0 <= i <= j && #[trigger] field_at(images@, n, i)));
            }
            field = String::new();
            start = j + 1;
            assert(field@ =~= images@.subrange(start as int, (j + 1) as int));
        } else {
            push_char(&mut field, c);
            assert(field@ =~= images@.subrange(start as int, (j + 1) as int));
        }
        j = j + 1;
    }
    let ghost before = name_set_contents(set);
    let ghost f = field@;
    name_set_insert(&mut set, field);
    assert forall|n: Seq<char>| #[trigger] name_set_contents(set).contains(n) <==> is_field(images@, n) by {
        lemma_field_ends(images@, start as int, len as int, n);
        assert(before.contains(n) <==> field_before(images@, n, start as int));
        if is_field(images@, n) {
            let i = choose|i: int| #[trigger] field_at(images@, n, i);
            assert(0 <= i <= len);
        }
    }
    set
}

/// Indices, in order, of the first `n` partitions that an image list picks:
/// every partition when the list is empty, else those named in it.
pub open spec fn picked_partitions(parts: Seq<PartitionUpdate>, images: Seq<char>, n: nat) -> Seq<int>
    decreases n,
{
    if n == 0 {
        seq![]
    } else {
        let prev = picked_partitions(parts, images, (n - 1) as nat);
        if images.len() == 0 || is_field(images, parts[n - 1].partition_name@) {
            prev.push(n - 1)
        } else {
            prev
        }
    }
}

/// With an empty image list every partition is picked, in manifest order.
pub proof fn law_empty_list_picks_all(parts: Seq<PartitionUpdate>, n: nat)
    ensures
        picked_partitions(parts, Seq::empty(), n) == Seq::new(n, |i: int| i),
    decreases n,
{
    if n > 0 {
        law_empty_list_picks_all(parts, (n - 1) as nat);
        assert(Seq::new((n - 1) as nat, |i: int| i).push(n - 1) =~= Seq::new(n, |i: int| i));
    }
}

/// The picked partitions are distinct and keep the manifest's order: their
/// indices increase and lie among the first `n`.
pub proof fn law_picked_in_order(parts: Seq<PartitionUpdate>, images: Seq<char>, n: nat)
    ensures
        forall|k: int| 0 <= k < picked_partitions(parts, images, n).len() ==> 0 <= #[trigger] picked_partitions(parts, images, n)[k] < n,
        forall|a: int, b: int|
            0 <= a < b < picked_partitions(parts, images, n).len() ==> #[trigger] picked_partitions(parts, images, n)[a]
                < #[trigger] picked_partitions(parts, images, n)[b],
    decreases n,
{
    if n > 0 {
        law_picked_in_order(parts, images, (n - 1) as nat);
        let prev = picked_partitions(parts, images, (n - 1) as nat);
        let cur = picked_partitions(parts, images, n);
        if images.len() == 0 || is_field(images, parts[n - 1].partition_name@) {
            assert(cur == prev.push(n - 1));
            assert forall|k: int| 0 <= k < cur.len() implies 0 <= #[trigger] cur[k] < n by {
                if k < prev.len() {
                    assert(cur[k] == prev[k]);
                }
            }
            assert forall|a: int, b: int| 0 <= a < b < cur.len() implies #[trigger] cur[a] < #[trigger] cur[b] by {
                assert(cur[a] == prev[a]);
                if b < prev.len() {
                    assert(cur[b] == prev[b]);
                }
            }
        } else {
            assert(cur == prev);
        }
    }
}

/// The partitions to extract: all of them when `images_arg` is empty, else
/// those whose name is one of its comma-separated names, in manifest order.
pub fn filter_partitions(manifest: &DeltaArchiveManifest, images_arg: &str) -> (r: Vec<PartitionUpdate>)
    ensures
        r@.len() == picked_partitions(manifest.partitions@, images_arg@, manifest.partitions@.len()).len(),
        forall|k: int|
            0 <= k < r@.len() ==> same_partition(
                #[trigger] r@[k],
                manifest.partitions@[picked_partitions(manifest.partitions@, images_arg@, manifest.partitions@.len())[k]],
            ),
{
    let all = images_arg.unicode_len() == 0;
    let names = if all {
        name_set_new()
    } else {
        listed_names(images_arg)
    };
    let mut out: Vec<PartitionUpdate> = Vec::new();
    let mut i: usize = 0;
    while i < manifest.partitions.len()
        invariant
            i <= manifest.partitions@.len(),
            all == (images_arg@.len() == 0),
            !all ==> forall|n: Seq<char>| #[trigger] name_set_contents(names).contains(n) <==> is_field(images_arg@, n),
            out@.len() == picked_partitions(manifest.partitions@, images_arg@, i as nat).len(),
            forall|k: int|
                0 <= k < out@.len() ==> same_partition(
                    #[trigger] out@[k],
                    manifest.partitions@[picked_partitions(manifest.partitions@, images_arg@, i as nat)[k]],
                ),
        decreases manifest.partitions@.len() - i,
    {
        let p = &manifest.partitions[i];
        let ghost before = picked_partitions(manifest.partitions@, images_arg@, i as nat);
        let take = all || name_set_contains(&names, p.partition_name.as_str());
        assert(picked_partitions(manifest.partitions@, images_arg@, (i + 1) as nat) == if take {
            before.push(i as int)
        } else {
            before
        });
        if take {
            out.push(p.copy());
        }
        i = i + 1;
    }
    out
}

} // verus!
