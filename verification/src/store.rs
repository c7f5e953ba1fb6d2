//! The store's directory as a value, what writing does to it, and what
//! follows for seeding and saving.

use vstd::prelude::*;
use crate::paths::{
    has_extension, is_plain_name, last_dot, lemma_last_dot, lemma_last_dot_is, stem_of, DOT,
};
use crate::sequences::{lemma_filter_map_includes, lemma_filter_map_stems};
use crate::templates::{
    default_templates_spec, is_taken, is_template_file_name, listed_template, listed_templates,
    seed_plan, seed_write, taken_name, template_file_name_spec, SeedPlanView, StoreFileView,
    TemplateView, WriteView, DEFAULTS_SENTINEL_FILE, TEMPLATE_EXTENSION,
};

verus! {

/// The children of a directory: their names are text and no two are the same.
pub open spec fn is_store(files: Seq<StoreFileView>) -> bool {
    &&& forall|i: int| 0 <= i < files.len() ==> (#[trigger] files[i]).name_is_text
    &&& forall|i: int, j: int|
        0 <= i < j < files.len() ==> (#[trigger] files[i]).file_name != (
        #[trigger] files[j]).file_name
}

/// The directory holds a file of this name.
pub open spec fn holds_file(files: Seq<StoreFileView>, file_name: Seq<char>) -> bool {
    exists|i: int| 0 <= i < files.len() && (#[trigger] files[i]).file_name == file_name
}

/// A file after a write: the file that is written takes the new content, any
/// other file stays as it is.
pub open spec fn written(file: StoreFileView, write: WriteView) -> StoreFileView {
    if file.file_name == write.file_name {
        StoreFileView {
            file_name: file.file_name,
            name_is_text: file.name_is_text,
            content: Some(write.content),
        }
    } else {
        file
    }
}

/// The directory after a write: the file of that name is overwritten where
/// the directory holds one, and created otherwise.
pub open spec fn after_write(files: Seq<StoreFileView>, write: WriteView) -> Seq<StoreFileView> {
    if holds_file(files, write.file_name) {
        files.map_values(|f: StoreFileView| written(f, write))
    } else {
        files.push(
            StoreFileView {
                file_name: write.file_name,
                name_is_text: true,
                content: Some(write.content),
            },
        )
    }
}

/// The directory after several writes in order.
pub open spec fn after_writes(files: Seq<StoreFileView>, writes: Seq<WriteView>) -> Seq<
    StoreFileView,
>
    decreases writes.len(),
{
    if writes.len() == 0 {
        files
    } else {
        after_write(after_writes(files, writes.drop_last()), writes.last())
    }
}

/// The write that creates the sentinel: an empty file.
pub open spec fn sentinel_write() -> WriteView {
    WriteView { file_name: DEFAULTS_SENTINEL_FILE@, content: Seq::empty() }
}

/// The directory holds the sentinel.
pub open spec fn has_sentinel(files: Seq<StoreFileView>) -> bool {
    holds_file(files, DEFAULTS_SENTINEL_FILE@)
}

/// The directory after a seeding plan was carried out.
pub open spec fn after_seeding(files: Seq<StoreFileView>, plan: SeedPlanView) -> Seq<StoreFileView> {
    let filled = after_writes(files, plan.writes);
    if plan.write_sentinel {
        after_write(filled, sentinel_write())
    } else {
        filled
    }
}

/// What saving a template writes.
pub open spec fn save_write(name: Seq<char>, content: Seq<char>) -> WriteView {
    WriteView { file_name: template_file_name_spec(name), content }
}

/// No two templates have the same name.
pub open spec fn names_differ(templates: Seq<TemplateView>) -> bool {
    forall|i: int, j: int|
        0 <= i < j < templates.len() ==> (#[trigger] templates[i]).name != (
        #[trigger] templates[j]).name
}

/// The extension of templates holds no dot and is three characters long.
pub proof fn lemma_template_extension()
    ensures
        TEMPLATE_EXTENSION@.len() == 3,
        forall|k: int| 0 <= k < 3 ==> TEMPLATE_EXTENSION@[k] != DOT,
{
    reveal_strlit("txt");
}

/// The file of a template gives the template's name back: its base name is
/// the name and its extension is that of templates. This needs a name that
/// is not empty.
pub proof fn lemma_template_file_name(name: Seq<char>)
    requires
        name.len() > 0,
    ensures
        stem_of(template_file_name_spec(name)) == name,
        is_template_file_name(template_file_name_spec(name)),
{
    lemma_template_extension();
    let file_name = template_file_name_spec(name);
    let at = name.len() as int;
    assert(file_name[at] == DOT);
    assert forall|k: int| at < k < file_name.len() implies file_name[k] != DOT by {
        assert(file_name[k] == TEMPLATE_EXTENSION@[k - at - 1]);
    }
    lemma_last_dot_is(file_name, at);
    assert(file_name[file_name.len() - 1] != DOT);
    assert(has_extension(file_name));
    assert(file_name.take(at) =~= name);
    assert(file_name.skip(at + 1) =~= TEMPLATE_EXTENSION@);
}

/// A file that backs a template is named by the template's name: its file
/// name is the base name with the extension of templates.
pub proof fn lemma_template_file_is_named(file_name: Seq<char>)
    requires
        is_template_file_name(file_name),
    ensures
        file_name == template_file_name_spec(stem_of(file_name)),
        stem_of(file_name).len() > 0,
{
    lemma_last_dot(file_name);
    let at = last_dot(file_name);
    assert(file_name =~= file_name.take(at) + seq![DOT] + file_name.skip(at + 1));
}

/// What a write does to a directory. The directory stays a directory. It
/// holds the written file with the new content, and every file that it held
/// before, the others unchanged and in their places.
pub proof fn lemma_after_write(files: Seq<StoreFileView>, write: WriteView)
    requires
        is_store(files),
    ensures
        is_store(after_write(files, write)),
        files.len() <= after_write(files, write).len() <= files.len() + 1,
        forall|i: int|
            0 <= i < files.len() ==> (#[trigger] after_write(files, write)[i]) == written(
                files[i],
                write,
            ),
        exists|i: int|
            0 <= i < after_write(files, write).len() && #[trigger] after_write(files, write)[i]
                == (StoreFileView {
                file_name: write.file_name,
                name_is_text: true,
                content: Some(write.content),
            }),
        after_write(files, write).len() == files.len() + 1 ==> !holds_file(files, write.file_name)
            && after_write(files, write).last().file_name == write.file_name,
{
    let after = after_write(files, write);
    if holds_file(files, write.file_name) {
        let at = choose|i: int| 0 <= i < files.len() && (#[trigger] files[i]).file_name
            == write.file_name;
        assert(after[at] == written(files[at], write));
    } else {
        assert(after[files.len() as int].file_name == write.file_name);
        assert forall|i: int, j: int| 0 <= i < j < after.len() implies (#[trigger] after[i]).file_name
            != (#[trigger] after[j]).file_name by {
            if j == files.len() {
                assert(files[i].file_name != write.file_name);
            }
        }
    }
}

/// A name that is taken stays taken through a write.
pub proof fn lemma_taken_stays_taken(files: Seq<StoreFileView>, write: WriteView, name: Seq<char>)
    requires
        is_store(files),
        is_taken(files, name),
    ensures
        is_taken(after_write(files, write), name),
{
    lemma_after_write(files, write);
    let at = choose|i: int| 0 <= i < files.len() && taken_name(#[trigger] files[i]) == Some(name);
    assert(taken_name(after_write(files, write)[at]) == Some(name));
}

/// A write for a template takes up the template's name.
pub proof fn lemma_write_takes_name(files: Seq<StoreFileView>, name: Seq<char>, content: Seq<char>)
    requires
        is_store(files),
        name.len() > 0,
    ensures
        is_taken(after_write(files, save_write(name, content)), name),
{
    let write = save_write(name, content);
    lemma_after_write(files, write);
    lemma_template_file_name(name);
    let after = after_write(files, write);
    let at = choose|i: int|
        0 <= i < after.len() && #[trigger] after[i] == (StoreFileView {
            file_name: write.file_name,
            name_is_text: true,
            content: Some(write.content),
        });
    assert(taken_name(after[at]) == Some(name));
}

/// Several writes leave a directory a directory, and keep every name taken
/// that was taken before.
pub proof fn lemma_after_writes(files: Seq<StoreFileView>, writes: Seq<WriteView>)
    requires
        is_store(files),
    ensures
        is_store(after_writes(files, writes)),
        forall|name: Seq<char>|
            is_taken(files, name) ==> #[trigger] is_taken(after_writes(files, writes), name),
    decreases writes.len(),
{
    if writes.len() > 0 {
        let earlier = after_writes(files, writes.drop_last());
        lemma_after_writes(files, writes.drop_last());
        lemma_after_write(earlier, writes.last());
        assert forall|name: Seq<char>| is_taken(files, name) implies #[trigger] is_taken(
            after_writes(files, writes),
            name,
        ) by {
            assert(is_taken(earlier, name));
            lemma_taken_stays_taken(earlier, writes.last(), name);
        }
    }
}

/// In a directory no two templates have the same name.
pub proof fn lemma_template_names_differ(files: Seq<StoreFileView>)
    requires
        is_store(files),
    ensures
        names_differ(listed_templates(files)),
    decreases files.len(),
{
    if files.len() > 0 {
        let rest = files.drop_last();
        let keep = |f: StoreFileView| listed_template(f);
        assert(is_store(rest)) by {
            assert forall|i: int| 0 <= i < rest.len() implies (#[trigger] rest[i]).name_is_text by {
                assert(rest[i] == files[i]);
            }
            assert forall|i: int, j: int| 0 <= i < j < rest.len() implies (
            #[trigger] rest[i]).file_name != (#[trigger] rest[j]).file_name by {
                assert(rest[i] == files[i]);
                assert(rest[j] == files[j]);
            }
        }
        lemma_template_names_differ(rest);
        let listed = listed_templates(files);
        let before = listed_templates(rest);
        match listed_template(files.last()) {
            Some(template) => {
                assert(listed == before + seq![template]);
                assert forall|i: int, j: int| 0 <= i < j < listed.len() implies (
                #[trigger] listed[i]).name != (#[trigger] listed[j]).name by {
                    if j == before.len() {
                        if listed[i].name == template.name {
                            assert(before.contains(before[i]));
                            lemma_filter_map_stems(rest, keep, before[i]);
                            let k = choose|k: int|
                                0 <= k < rest.len() && keep(#[trigger] rest[k]) == Some(before[i]);
                            assert(rest[k] == files[k]);
                            lemma_template_file_is_named(files[k].file_name);
                            lemma_template_file_is_named(files.last().file_name);
                            assert(files[k].file_name == files[files.len() - 1].file_name);
                        }
                    } else {
                        assert(listed[i] == before[i]);
                        assert(listed[j] == before[j]);
                    }
                }
            },
            None => {
                assert(listed == before);
            },
        }
    }
}

/// A template that was saved is listed. After the file for `name` was
/// written with `content`, the store lists a template of that name with
/// exactly that content, and no second template of that name, whatever the
/// store held before. The name must be one component of a path: the file of
/// an empty name has no base name and backs no template, and a name with a
/// separator in it names a file outside the store's directory.
pub proof fn lemma_saved_template_is_listed(
    files: Seq<StoreFileView>,
    name: Seq<char>,
    content: Seq<char>,
)
    requires
        is_store(files),
        is_plain_name(name),
    ensures
        is_store(after_write(files, save_write(name, content))),
        listed_templates(after_write(files, save_write(name, content))).contains(
            TemplateView { name, content },
        ),
        names_differ(listed_templates(after_write(files, save_write(name, content)))),
        forall|i: int|
            0 <= i < listed_templates(after_write(files, save_write(name, content))).len() && (
            #[trigger] listed_templates(after_write(files, save_write(name, content)))[i]).name
                == name ==> listed_templates(after_write(files, save_write(name, content)))[i]
                == (TemplateView { name, content }),
{
    let write = save_write(name, content);
    let after = after_write(files, write);
    let listed = listed_templates(after);
    let keep = |f: StoreFileView| listed_template(f);
    let saved = TemplateView { name, content };
    lemma_after_write(files, write);
    lemma_template_file_name(name);
    let at = choose|i: int|
        0 <= i < after.len() && #[trigger] after[i] == (StoreFileView {
            file_name: write.file_name,
            name_is_text: true,
            content: Some(write.content),
        });
    assert(keep(after[at]) == Some(saved));
    lemma_filter_map_includes(after, keep, at);
    lemma_template_names_differ(after);
    assert forall|i: int| 0 <= i < listed.len() && (#[trigger] listed[i]).name == name implies listed[i]
        == saved by {
        let here = listed.index_of(saved);
        if i < here {
            assert(listed[i].name != listed[here].name);
        } else if here < i {
            assert(listed[here].name != listed[i].name);
        }
    }
}

/// Saving a template leaves the other templates alone: a template of
/// another name is listed after the save exactly when it was listed before.
pub proof fn lemma_save_keeps_other_templates(
    files: Seq<StoreFileView>,
    name: Seq<char>,
    content: Seq<char>,
    other: TemplateView,
)
    requires
        is_store(files),
        is_plain_name(name),
        other.name != name,
    ensures
        listed_templates(after_write(files, save_write(name, content))).contains(other)
            <==> listed_templates(files).contains(other),
{
    let write = save_write(name, content);
    let after = after_write(files, write);
    let keep = |f: StoreFileView| listed_template(f);
    lemma_after_write(files, write);
    lemma_template_file_name(name);
    if listed_templates(files).contains(other) {
        lemma_filter_map_stems(files, keep, other);
        let k = choose|k: int| 0 <= k < files.len() && keep(#[trigger] files[k]) == Some(other);
        assert(after[k] == written(files[k], write));
        assert(files[k].file_name != write.file_name) by {
            if files[k].file_name == write.file_name {
                assert(stem_of(files[k].file_name) == name);
            }
        }
        assert(keep(after[k]) == Some(other));
        lemma_filter_map_includes(after, keep, k);
    }
    if listed_templates(after).contains(other) {
        lemma_filter_map_stems(after, keep, other);
        let k = choose|k: int| 0 <= k < after.len() && keep(#[trigger] after[k]) == Some(other);
        assert(after[k].file_name != write.file_name) by {
            if after[k].file_name == write.file_name {
                assert(stem_of(after[k].file_name) == name);
            }
        }
        if k < files.len() {
            assert(after[k] == written(files[k], write));
            assert(keep(files[k]) == Some(other));
            lemma_filter_map_includes(files, keep, k);
        } else {
            assert(after.len() == files.len() + 1);
            assert(after.last().file_name == write.file_name);
        }
    }
}

/// A store that was seeded once is left alone: with the sentinel present the
/// plan writes nothing, whatever the directory holds, so a built-in template
/// that the user has deleted does not come back.
pub proof fn lemma_seeded_store_is_left_alone(files: Seq<StoreFileView>)
    ensures
        seed_plan(true, files).writes.len() == 0,
        !seed_plan(true, files).write_sentinel,
        after_seeding(files, seed_plan(true, files)) == files,
{
}

/// Seeding leaves the sentinel behind: once a plan made without the
/// sentinel was carried out, the directory holds it.
pub proof fn lemma_seeding_sets_the_sentinel(files: Seq<StoreFileView>)
    requires
        is_store(files),
    ensures
        is_store(after_seeding(files, seed_plan(false, files))),
        has_sentinel(after_seeding(files, seed_plan(false, files))),
{
    let plan = seed_plan(false, files);
    let filled = after_writes(files, plan.writes);
    lemma_after_writes(files, plan.writes);
    lemma_after_write(filled, sentinel_write());
}

/// There are four built-in templates, none of them with an empty name.
pub proof fn lemma_default_names()
    ensures
        default_templates_spec().len() == 4,
        forall|d: int| 0 <= d < 4 ==> (#[trigger] default_templates_spec()[d]).name.len() > 0,
        default_templates_spec()[0].name[0] == 'W',
        default_templates_spec()[1].name[0] == 'S',
        default_templates_spec()[2].name[0] == 'V',
        default_templates_spec()[3].name[0] == 'G',
{
    reveal_strlit("Web Project");
    reveal_strlit("School Class");
    reveal_strlit("Video Project");
    reveal_strlit("Graphic Design Project");
}

/// A write for a template among several writes takes up the template's
/// name for good.
pub proof fn lemma_write_is_kept(
    files: Seq<StoreFileView>,
    writes: Seq<WriteView>,
    at: int,
    name: Seq<char>,
    content: Seq<char>,
)
    requires
        is_store(files),
        0 <= at < writes.len(),
        writes[at] == save_write(name, content),
        name.len() > 0,
    ensures
        is_taken(after_writes(files, writes), name),
    decreases writes.len(),
{
    let earlier = after_writes(files, writes.drop_last());
    lemma_after_writes(files, writes.drop_last());
    if at == writes.len() - 1 {
        lemma_write_takes_name(earlier, name, content);
    } else {
        lemma_write_is_kept(files, writes.drop_last(), at, name, content);
        lemma_taken_stays_taken(earlier, writes.last(), name);
    }
}

/// After seeding, the name of every built-in template is taken: by the file
/// that took it up before, or by the file that seeding wrote.
pub proof fn lemma_seeding_provides_the_defaults(files: Seq<StoreFileView>, d: int)
    requires
        is_store(files),
        0 <= d < default_templates_spec().len(),
    ensures
        is_taken(after_seeding(files, seed_plan(false, files)), default_templates_spec()[d].name),
{
    lemma_default_names();
    let defaults = default_templates_spec();
    let template = defaults[d];
    let choose_write = |t: TemplateView| seed_write(files, t);
    let plan = seed_plan(false, files);
    let filled = after_writes(files, plan.writes);
    lemma_after_writes(files, plan.writes);
    if !is_taken(files, template.name) {
        lemma_filter_map_includes(defaults, choose_write, d);
        let write = save_write(template.name, template.content);
        let at = plan.writes.index_of(write);
        lemma_write_is_kept(files, plan.writes, at, template.name, template.content);
    }
    lemma_taken_stays_taken(filled, sentinel_write(), template.name);
}

/// The file of a built-in template as seeding creates it.
pub open spec fn seeded_file(template: TemplateView) -> StoreFileView {
    StoreFileView {
        file_name: template_file_name_spec(template.name),
        name_is_text: true,
        content: Some(template.content),
    }
}

/// The sentinel is no template, and no file of a built-in template.
pub proof fn lemma_sentinel_is_no_template()
    ensures
        !is_template_file_name(DEFAULTS_SENTINEL_FILE@),
        forall|d: int|
            0 <= d < 4 ==> template_file_name_spec((#[trigger] default_templates_spec()[d]).name)
                != DEFAULTS_SENTINEL_FILE@,
{
    reveal_strlit(".defaults_initialized");
    lemma_template_extension();
    reveal_strlit("txt");
    lemma_default_names();
    let sentinel = DEFAULTS_SENTINEL_FILE@;
    if is_template_file_name(sentinel) {
        lemma_template_file_is_named(sentinel);
        let named = template_file_name_spec(stem_of(sentinel));
        assert(named[named.len() - 1] == TEMPLATE_EXTENSION@[2]);
        assert(sentinel[20] == 'd');
    }
    assert forall|d: int| 0 <= d < 4 implies template_file_name_spec(
        (#[trigger] default_templates_spec()[d]).name,
    ) != sentinel by {
        let name = default_templates_spec()[d].name;
        assert(template_file_name_spec(name)[0] == name[0]);
        assert(sentinel[0] == '.');
    }
}

/// Seeding a store in which no built-in name is taken adds exactly the
/// built-in templates: the store then lists what it listed before, followed
/// by the four built-in templates in their order.
pub proof fn lemma_seeding_adds_untaken_defaults(files: Seq<StoreFileView>)
    requires
        is_store(files),
        !has_sentinel(files),
        forall|d: int|
            0 <= d < default_templates_spec().len() ==> !is_taken(
                files,
                (#[trigger] default_templates_spec()[d]).name,
            ),
    ensures
        listed_templates(after_seeding(files, seed_plan(false, files))) == listed_templates(files)
            + default_templates_spec(),
{
    lemma_default_names();
    lemma_sentinel_is_no_template();
    let defaults = default_templates_spec();
    let keep = |f: StoreFileView| listed_template(f);
    let choose_write = |t: TemplateView| seed_write(files, t);
    let plan = seed_plan(false, files);
    let w0 = save_write(defaults[0].name, defaults[0].content);
    let w1 = save_write(defaults[1].name, defaults[1].content);
    let w2 = save_write(defaults[2].name, defaults[2].content);
    let w3 = save_write(defaults[3].name, defaults[3].content);
    assert(plan.writes == seq![w0, w1, w2, w3]) by {
        assert(defaults.take(0).filter_map(choose_write) =~= Seq::<WriteView>::empty());
        defaults.lemma_filter_map_take_succ(choose_write, 0);
        defaults.lemma_filter_map_take_succ(choose_write, 1);
        defaults.lemma_filter_map_take_succ(choose_write, 2);
        defaults.lemma_filter_map_take_succ(choose_write, 3);
        assert(defaults.take(4) =~= defaults);
        assert(plan.writes =~= seq![w0, w1, w2, w3]);
    }
    let writes = plan.writes;
    assert(seq![w0].drop_last() =~= Seq::<WriteView>::empty());
    assert(seq![w0, w1].drop_last() =~= seq![w0]);
    assert(seq![w0, w1, w2].drop_last() =~= seq![w0, w1]);
    assert(writes.drop_last() =~= seq![w0, w1, w2]);
    let s0 = files;
    let s1 = after_write(s0, w0);
    let s2 = after_write(s1, w1);
    let s3 = after_write(s2, w2);
    let s4 = after_write(s3, w3);
    let s5 = after_write(s4, sentinel_write());
    assert(after_writes(files, Seq::<WriteView>::empty()) == files);
    assert(after_writes(files, seq![w0]) == s1);
    assert(after_writes(files, seq![w0, w1]) == s2);
    assert(after_writes(files, seq![w0, w1, w2]) == s3);
    assert(after_writes(files, writes) == s4);
    assert(after_seeding(files, plan) == s5);
    assert forall|d: int, k: int| 0 <= d < 4 && 0 <= k < files.len() implies (
    #[trigger] files[k]).file_name != template_file_name_spec(
        (#[trigger] defaults[d]).name,
    ) by {
        lemma_template_file_name(defaults[d].name);
        if files[k].file_name == template_file_name_spec(defaults[d].name) {
            assert(taken_name(files[k]) == Some(defaults[d].name));
            assert(is_taken(files, defaults[d].name));
        }
    }
    assert forall|a: int, b: int| 0 <= a < b < 4 implies template_file_name_spec(
        (#[trigger] defaults[a]).name,
    ) != template_file_name_spec((#[trigger] defaults[b]).name) by {
        assert(template_file_name_spec(defaults[a].name)[0] == defaults[a].name[0]);
        assert(template_file_name_spec(defaults[b].name)[0] == defaults[b].name[0]);
    }
    let e0 = seeded_file(defaults[0]);
    let e1 = seeded_file(defaults[1]);
    let e2 = seeded_file(defaults[2]);
    let e3 = seeded_file(defaults[3]);
    let mark = StoreFileView {
        file_name: DEFAULTS_SENTINEL_FILE@,
        name_is_text: true,
        content: Some(Seq::<char>::empty()),
    };
    assert(s1 == s0.push(e0));
    assert(s2 == s1.push(e1)) by {
        if holds_file(s1, w1.file_name) {
            let k = choose|k: int| 0 <= k < s1.len() && (#[trigger] s1[k]).file_name == w1.file_name;
            if k < files.len() {
                assert(s1[k] == files[k]);
            }
        }
    }
    assert(s3 == s2.push(e2)) by {
        if holds_file(s2, w2.file_name) {
            let k = choose|k: int| 0 <= k < s2.len() && (#[trigger] s2[k]).file_name == w2.file_name;
            if k < files.len() {
                assert(s2[k] == files[k]);
            }
        }
    }
    assert(s4 == s3.push(e3)) by {
        if holds_file(s3, w3.file_name) {
            let k = choose|k: int| 0 <= k < s3.len() && (#[trigger] s3[k]).file_name == w3.file_name;
            if k < files.len() {
                assert(s3[k] == files[k]);
            }
        }
    }
    assert(s5 == s4.push(mark)) by {
        if holds_file(s4, DEFAULTS_SENTINEL_FILE@) {
            let k = choose|k: int|
                0 <= k < s4.len() && (#[trigger] s4[k]).file_name == DEFAULTS_SENTINEL_FILE@;
            if k < files.len() {
                assert(s4[k] == files[k]);
            }
        }
    }
    lemma_template_file_name(defaults[0].name);
    lemma_template_file_name(defaults[1].name);
    lemma_template_file_name(defaults[2].name);
    lemma_template_file_name(defaults[3].name);
    assert(s1.drop_last() =~= s0);
    assert(s2.drop_last() =~= s1);
    assert(s3.drop_last() =~= s2);
    assert(s4.drop_last() =~= s3);
    assert(s5.drop_last() =~= s4);
    assert(keep(e0) == Some(defaults[0]));
    assert(keep(e1) == Some(defaults[1]));
    assert(keep(e2) == Some(defaults[2]));
    assert(keep(e3) == Some(defaults[3]));
    assert(keep(mark) is None);
    assert(listed_templates(s1) == listed_templates(s0) + seq![defaults[0]]);
    assert(listed_templates(s2) == listed_templates(s1) + seq![defaults[1]]);
    assert(listed_templates(s3) == listed_templates(s2) + seq![defaults[2]]);
    assert(listed_templates(s4) == listed_templates(s3) + seq![defaults[3]]);
    assert(listed_templates(s5) == listed_templates(s4));
    assert(listed_templates(s5) =~= listed_templates(files) + defaults);
}

} // verus!
