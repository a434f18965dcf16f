//! Configuration files: `.env`, `appsettings*.json`,
//! `application.properties` and `application*.yml` become components of kind
//! module, so that they show up in the documentation and in search.

use vstd::prelude::*;
use super::{SourceFile, file_name_lc, file_name_lc_of, rel, rel_of};
use crate::model::{Component, ComponentKind, ComponentV, Language, Project, ProjectV, components_view};
use crate::node::Node;
use crate::text::{
    concat2, contains, contains_seq, decimal, ends_with, flatten, has_prefix, has_suffix,
    lemma_flatten_take, lemma_map_push, split_char, split_on, starts_with, str_eq, trim, trim_seq,
    usize_to_string, views,
};

verus! {

broadcast use vstd::seq_lib::group_seq_properties;

/// Whether a (lower-case) file name is a recognised configuration file.
pub open spec fn is_config_name(name: Seq<char>) -> bool {
    name == ".env"@ || has_prefix(name, ".env."@) || (has_prefix(name, "appsettings"@) && has_suffix(
        name,
        ".json"@,
    )) || name == "application.properties"@ || (has_prefix(name, "application"@) && (has_suffix(
        name,
        ".yml"@,
    ) || has_suffix(name, ".yaml"@)))
}

/// A `key=value` line: not blank, not a `#` comment, holding `=`.
pub open spec fn is_key_line(line: Seq<char>) -> bool {
    let t = trim_seq(line);
    t.len() > 0 && t[0] != '#' && contains_seq(t, "="@)
}

/// How many of `lines` are key lines.
pub open spec fn count_key_lines(lines: Seq<Seq<char>>) -> nat
    decreases lines.len(),
{
    if lines.len() == 0 {
        0
    } else {
        count_key_lines(lines.drop_last()) + if is_key_line(lines.last()) {
            1nat
        } else {
            0nat
        }
    }
}

/// The rough number of keys of a configuration file: the entries of the
/// top-level JSON object for `.json` files, the key lines otherwise; 0 when
/// the file cannot be read or parsed.
pub open spec fn key_count(f: SourceFile, name: Seq<char>) -> nat {
    match f.text {
        None => 0,
        Some(t) => if has_suffix(name, ".json"@) {
            match f.json {
                Some(Node::Mapping(entries)) => entries@.len(),
                _ => 0,
            }
        } else {
            count_key_lines(split_on(t@, '\n'))
        },
    }
}

/// The component that stands for a configuration file, if it is one.
pub open spec fn config_component(root: Seq<char>, f: SourceFile) -> Seq<ComponentV> {
    let name = file_name_lc_of(f.path@);
    let place = rel_of(root, f.path@);
    if is_config_name(name) {
        seq![
            ComponentV {
                id: "config:"@ + place,
                name: name + " ("@ + decimal(key_count(f, name)) + " chiavi)"@,
                kind: ComponentKind::Module,
                language: Language::Other,
                path: place,
                members: Seq::empty(),
            },
        ]
    } else {
        Seq::empty()
    }
}

pub open spec fn with_more_components(p: ProjectV, cs: Seq<ComponentV>) -> ProjectV {
    ProjectV { components: p.components + cs, ..p }
}

// ---------------------------------------------------------------------------
// Implementation
// ---------------------------------------------------------------------------

fn is_config(name: &str) -> (b: bool)
    ensures
        b == is_config_name(name@),
{
    str_eq(name, ".env") || starts_with(name, ".env.") || (starts_with(name, "appsettings")
        && ends_with(name, ".json")) || str_eq(name, "application.properties") || (starts_with(
        name,
        "application",
    ) && (ends_with(name, ".yml") || ends_with(name, ".yaml")))
}

fn key_line(line: &str) -> (b: bool)
    ensures
        b == is_key_line(line@),
{
    let t = trim(line);
    if t.as_str().is_empty() {
        return false;
    }
    let starts_hash = starts_with(t.as_str(), "#");
    proof {
        reveal_strlit("#");
        if t@.len() > 0 {
            assert(has_prefix(t@, "#"@) == (t@[0] == '#')) by {
                assert("#"@.len() == 1 && "#"@[0] == '#');
                if t@[0] == '#' {
                    assert(t@.subrange(0, 1) =~= "#"@);
                }
                if has_prefix(t@, "#"@) {
                    assert(t@.subrange(0, 1)[0] == t@[0]);
                }
            }
        }
    }
    !starts_hash && contains(t.as_str(), "=")
}

proof fn lemma_count_key_lines_le(lines: Seq<Seq<char>>)
    ensures
        count_key_lines(lines) <= lines.len(),
    decreases lines.len(),
{
    if lines.len() > 0 {
        lemma_count_key_lines_le(lines.drop_last());
    }
}

/// Counts the keys of a configuration file (see [`key_count`]).
pub fn count_keys(f: &SourceFile, name: &str) -> (n: usize)
    ensures
        n == key_count(*f, name@),
{
    match &f.text {
        None => 0,
        Some(t) => {
            if ends_with(name, ".json") {
                match &f.json {
                    Some(Node::Mapping(entries)) => entries.len(),
                    _ => 0,
                }
            } else {
                let lines = split_char(t.as_str(), '\n');
                let mut n: usize = 0;
                for i in 0..lines.len()
                    invariant
                        n == count_key_lines(views(lines@).take(i as int)),
                        n <= i,
                {
                    assert(views(lines@).take(i + 1).drop_last() =~= views(lines@).take(i as int));
                    if key_line(lines[i].as_str()) {
                        n += 1;
                    }
                }
                assert(views(lines@).take(lines.len() as int) =~= views(lines@));
                n
            }
        },
    }
}

/// The configuration component of one file (see [`config_component`]).
pub fn config_of_file(root: &str, f: &SourceFile) -> (r: Vec<Component>)
    ensures
        components_view(r@) == config_component(root@, *f),
{
    let mut r: Vec<Component> = Vec::new();
    let name = file_name_lc(f.path.as_str());
    if !is_config(name.as_str()) {
        assert(components_view(r@) =~= Seq::<ComponentV>::empty());
        return r;
    }
    let place = rel(root, f.path.as_str());
    let keys = count_keys(f, name.as_str());
    let id = concat2("config:", place.as_str());
    let a = concat2(name.as_str(), " (");
    let b = concat2(a.as_str(), usize_to_string(keys).as_str());
    let label = concat2(b.as_str(), " chiavi)");
    let members: Vec<String> = Vec::new();
    assert(views(members@) =~= Seq::<Seq<char>>::empty());
    r.push(
        Component {
            id,
            name: label,
            kind: ComponentKind::Module,
            language: Language::Other,
            path: place,
            members,
        },
    );
    assert(components_view(r@) =~= config_component(root@, *f));
    r
}

/// Registers every recognised configuration file as a component, in file
/// order.
pub fn collect(project: &mut Project, root: &str, files: &Vec<SourceFile>)
    ensures
        final(project)@ == with_more_components(
            old(project)@,
            flatten(files@.map_values(|f: SourceFile| config_component(root@, f))),
        ),
{
    let ghost per = files@.map_values(|f: SourceFile| config_component(root@, f));
    let ghost start = project@;
    for i in 0..files.len()
        invariant
            per == files@.map_values(|f: SourceFile| config_component(root@, f)),
            project@ == with_more_components(start, flatten(per.take(i as int))),
    {
        proof {
            lemma_flatten_take(per, i as int);
        }
        let ghost before = project.components@;
        let mut more = config_of_file(root, &files[i]);
        project.components.append(&mut more);
        assert(components_view(project.components@) =~= components_view(before) + per[i as int]);
        assert(project@.components =~= start.components + flatten(per.take(i + 1)));
        assert(project@ == with_more_components(start, flatten(per.take(i + 1))));
    }
    assert(per.take(files.len() as int) =~= per);
}

} // verus!
