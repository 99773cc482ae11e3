//! The configuration that `jj-work` reads from the `x.jj-work` table of
//! jj's config.

use vstd::prelude::*;

verus! {

/// Settings of `jj-work` for one repository.
#[derive(Debug)]
pub struct Settings {
    /// Where new workspaces are created and looked for; relative to the
    /// repo root.
    pub vault_dir: String,
    /// Paths, relative to the repo root, that a new workspace links back to
    /// the main repo.
    pub paths_to_symlink: Vec<String>,
    /// Named commands, each a list of words.
    pub command: Vec<(String, Vec<String>)>,
}

/// One value of a table of paths: a path or a list of them.
#[derive(Debug)]
pub enum PathOrPaths {
    Single(String),
    Multiple(Vec<String>),
}

/// The two ways of writing `paths_to_symlink`: a list of paths, or a table
/// whose values are paths or lists of paths (its keys only serve to combine
/// configs).
#[derive(Debug)]
pub enum PathsFormat {
    Vector(Vec<String>),
    Mapping(Vec<(String, PathOrPaths)>),
}

/// The paths one table value stands for.
pub open spec fn value_paths(v: PathOrPaths) -> Seq<Seq<char>> {
    match v {
        PathOrPaths::Single(p) => seq![p@],
        PathOrPaths::Multiple(ps) => ps.deep_view(),
    }
}

/// The paths of the table entries, value after value, in the given order.
pub open spec fn entries_paths(entries: Seq<(String, PathOrPaths)>) -> Seq<Seq<char>>
    decreases entries.len(),
{
    if entries.len() == 0 {
        Seq::empty()
    } else {
        entries_paths(entries.drop_last()) + value_paths(entries.last().1)
    }
}

/// The list of paths that `format` stands for.
pub open spec fn format_paths(format: PathsFormat) -> Seq<Seq<char>> {
    match format {
        PathsFormat::Vector(ps) => ps.deep_view(),
        PathsFormat::Mapping(entries) => entries_paths(entries@),
    }
}

/// A table of paths loses none of them: every path of every value is among
/// the paths the table stands for.
pub proof fn lemma_mapping_keeps_every_path(entries: Seq<(String, PathOrPaths)>, i: int, j: int)
    requires
        0 <= i < entries.len(),
        0 <= j < value_paths(entries[i].1).len(),
    ensures
        entries_paths(entries).contains(value_paths(entries[i].1)[j]),
    decreases entries.len(),
{
    let rest = entries.drop_last();
    let all = entries_paths(entries);
    if i < rest.len() {
        lemma_mapping_keeps_every_path(rest, i, j);
        assert(rest[i] == entries[i]);
        let k = choose|k: int|
            0 <= k < entries_paths(rest).len() && entries_paths(rest)[k] == value_paths(
                entries[i].1,
            )[j];
        assert(all[k] == entries_paths(rest)[k]);
    } else {
        let k = entries_paths(rest).len() + j;
        assert(all[k] == value_paths(entries[i].1)[j]);
    }
}

/// The list form stands for exactly the paths listed: as many, each kept,
/// in the order given.
pub proof fn lemma_list_form_keeps_every_path(ps: Vec<String>)
    ensures
        format_paths(PathsFormat::Vector(ps)).len() == ps.len(),
        forall|j: int|
            0 <= j < ps.len() ==> #[trigger] format_paths(PathsFormat::Vector(ps))[j] == ps[j]@,
{
}

/// Appends clones of `src` to `dst`.
fn append_clones(dst: &mut Vec<String>, src: &Vec<String>)
    ensures
        final(dst).deep_view() == old(dst).deep_view() + src.deep_view(),
{
    let mut k: usize = 0;
    while k < src.len()
        invariant
            k <= src.len(),
            dst.deep_view() == old(dst).deep_view() + src.deep_view().take(k as int),
        decreases src.len() - k,
    {
        let p = src[k].clone();
        let ghost prev = dst.deep_view();
        dst.push(p);
        assert(dst.deep_view() =~= prev.push(src[k as int]@));
        assert(src.deep_view().take(k + 1) =~= src.deep_view().take(k as int).push(src[k as int]@));
        assert(dst.deep_view() =~= old(dst).deep_view() + src.deep_view().take(k + 1));
        k = k + 1;
    }
    assert(src.deep_view().take(src.len() as int) =~= src.deep_view());
}

/// The list of paths to link, from either way of writing it. The values of
/// a table come one after another, in the order of its entries, each list
/// in its own order.
pub fn deserialize_paths(format: PathsFormat) -> (r: Vec<String>)
    ensures
        r.deep_view() == format_paths(format),
        format matches PathsFormat::Vector(ps) ==> r.len() == ps.len() && forall|j: int|
            0 <= j < ps.len() ==> #[trigger] r[j]@ == ps[j]@,
{
    match format {
        PathsFormat::Vector(paths) => paths,
        PathsFormat::Mapping(entries) => {
            let mut out: Vec<String> = Vec::new();
            let mut i: usize = 0;
            assert(out.deep_view() =~= Seq::<Seq<char>>::empty());
            while i < entries.len()
                invariant
                    i <= entries.len(),
                    out.deep_view() == entries_paths(entries@.take(i as int)),
                decreases entries.len() - i,
            {
                assert(entries@.take(i + 1).drop_last() =~= entries@.take(i as int));
                match &entries[i].1 {
                    PathOrPaths::Single(p) => {
                        let q = p.clone();
                        let ghost prev = out.deep_view();
                        out.push(q);
                        assert(out.deep_view() =~= prev.push(p@));
                        assert(out.deep_view() =~= entries_paths(entries@.take(i + 1)));
                    },
                    PathOrPaths::Multiple(ps) => {
                        append_clones(&mut out, ps);
                    },
                }
                i = i + 1;
            }
            assert(entries@.take(entries.len() as int) =~= entries@);
            out
        },
    }
}

} // verus!
