use vstd::prelude::*;

use crate::config::{fallback_theme, fallback_theme_model, Theme, ThemeModel};
use crate::text::{
    chars_between, chars_eq_ignore_ascii_case, chars_of, eq_ignoring_ascii_case, holds_text,
    same_text, string_of, texts_of,
};
use crate::theme_file::{parse_theme_from_str, theme_of_text};

verus! {

/// Identifier of the theme that is selected first, where a catalog has it.
pub const PREFERRED_THEME_ID: &'static str = "opencode";

/// Identifier of the built-in theme that stands in for an empty scan.
pub const FALLBACK_THEME_ID: &'static str = "fallback";

/// Where themes lie below the directory of the executable, below the
/// project root and below the working directory.
pub const BUNDLED_THEMES_DIR: &'static str = "assets/themes";

/// Where themes lie below the user's configuration directory.
pub const USER_THEMES_DIR: &'static str = "snake/themes";

/// A theme with the identifier it was loaded under: the stem of its file.
#[derive(Debug)]
pub struct ThemeItem {
    pub id: String,
    pub theme: Theme,
}

pub ghost struct ThemeItemModel {
    pub id: Seq<char>,
    pub theme: ThemeModel,
}

impl View for ThemeItem {
    type V = ThemeItemModel;

    open spec fn view(&self) -> ThemeItemModel {
        ThemeItemModel { id: self.id@, theme: self.theme@ }
    }
}

impl Clone for ThemeItem {
    fn clone(&self) -> (copy: Self)
        ensures
            copy@ == self@,
    {
        ThemeItem { id: self.id.clone(), theme: self.theme.clone() }
    }
}

/// The models of `items`, in order.
pub open spec fn item_models(items: Seq<ThemeItem>) -> Seq<ThemeItemModel> {
    Seq::new(items.len(), |i: int| items[i]@)
}

/// One file that a scan of a theme directory found: the final component of
/// its path, and its text where the file could be read.
#[derive(Debug, Clone)]
pub struct ThemeSource {
    pub file_name: String,
    pub content: Option<String>,
}

pub ghost struct ThemeSourceModel {
    pub file_name: Seq<char>,
    pub content: Option<Seq<char>>,
}

impl View for ThemeSource {
    type V = ThemeSourceModel;

    open spec fn view(&self) -> ThemeSourceModel {
        ThemeSourceModel {
            file_name: self.file_name@,
            content: match self.content {
                Some(text) => Some(text@),
                None => None,
            },
        }
    }
}

/// The models of `sources`, in order.
pub open spec fn source_models(sources: Seq<ThemeSource>) -> Seq<ThemeSourceModel> {
    Seq::new(sources.len(), |i: int| sources[i]@)
}

/// The models of the sources of each directory, in order.
pub open spec fn dir_models(dirs: Seq<Vec<ThemeSource>>) -> Seq<Seq<ThemeSourceModel>> {
    Seq::new(dirs.len(), |i: int| source_models(dirs[i]@))
}

/// Why a theme file was passed over.
#[derive(Debug, Clone, Copy, PartialEq, Eq, Structural)]
pub enum SkipReason {
    /// The file could not be read.
    Unreadable,
    /// The file's text is not a theme file.
    Invalid,
}

/// A theme file that a scan passed over, for a notice to the user.
#[derive(Debug, Clone)]
pub struct SkippedFile {
    pub file_name: String,
    pub reason: SkipReason,
}

pub ghost struct SkippedFileModel {
    pub file_name: Seq<char>,
    pub reason: SkipReason,
}

impl View for SkippedFile {
    type V = SkippedFileModel;

    open spec fn view(&self) -> SkippedFileModel {
        SkippedFileModel { file_name: self.file_name@, reason: self.reason }
    }
}

/// The models of `skipped`, in order.
pub open spec fn skipped_models(skipped: Seq<SkippedFile>) -> Seq<SkippedFileModel> {
    Seq::new(skipped.len(), |i: int| skipped[i]@)
}

/// The position of the last `.` in `name`, if it has one.
pub open spec fn last_dot(name: Seq<char>) -> Option<int>
    decreases name.len(),
{
    if name.len() == 0 {
        None
    } else if name.last() == '.' {
        Some(name.len() - 1)
    } else {
        last_dot(name.drop_last())
    }
}

/// The extension of a file name: what follows its last `.`. A name without
/// a `.`, and one whose only `.` is its first character, has none.
pub open spec fn extension_of(name: Seq<char>) -> Option<Seq<char>> {
    match last_dot(name) {
        Some(dot) => if dot == 0 {
            None
        } else {
            Some(name.subrange(dot + 1, name.len() as int))
        },
        None => None,
    }
}

/// The stem of a file name: what precedes its last `.`, and the whole name
/// where it has no extension.
pub open spec fn file_stem_of(name: Seq<char>) -> Seq<char> {
    match last_dot(name) {
        Some(dot) => if dot == 0 {
            name
        } else {
            name.subrange(0, dot)
        },
        None => name,
    }
}

/// Whether a file name has the extension `json`, in any mix of upper and
/// lower case.
pub open spec fn is_json_file_name(name: Seq<char>) -> bool {
    match extension_of(name) {
        Some(extension) => eq_ignoring_ascii_case(extension, "json"@),
        None => false,
    }
}

/// Finds the last `.` of a name.
fn find_last_dot(chars: &Vec<char>) -> (dot: Option<usize>)
    ensures
        match dot {
            Some(d) => last_dot(chars@) == Some(d as int) && d < chars.len(),
            None => last_dot(chars@) is None,
        },
{
    let mut i: usize = chars.len();
    assert(chars@.take(i as int) =~= chars@);
    while i > 0
        invariant
            i <= chars.len(),
            last_dot(chars@) == last_dot(chars@.take(i as int)),
        decreases i,
    {
        proof {
            assert(chars@.take(i as int).drop_last() =~= chars@.take(i as int - 1));
        }
        if chars[i - 1] == '.' {
            return Some(i - 1);
        }
        i -= 1;
    }
    None
}

/// Whether a file of this name is taken for a theme file: its extension is
/// `json`, whatever the case of the letters.
///
/// `file_name` is the final component of the file's path.
pub fn is_json_file(file_name: &str) -> (json: bool)
    ensures
        json == is_json_file_name(file_name@),
{
    let chars = chars_of(file_name);
    match find_last_dot(&chars) {
        Some(dot) => {
            if dot == 0 {
                return false;
            }
            let extension = chars_between(&chars, dot + 1, chars.len());
            let wanted = chars_of("json");
            chars_eq_ignore_ascii_case(&extension, &wanted)
        },
        None => false,
    }
}

/// The identifier of the theme in a file of this name: the name's stem.
///
/// `file_name` is the final component of the file's path.
pub fn theme_id(file_name: &str) -> (id: String)
    ensures
        id@ == file_stem_of(file_name@),
{
    let chars = chars_of(file_name);
    match find_last_dot(&chars) {
        Some(dot) => {
            if dot == 0 {
                return file_name.to_owned();
            }
            let stem = chars_between(&chars, 0, dot);
            string_of(&stem)
        },
        None => file_name.to_owned(),
    }
}

/// The theme that a scanned file brings into a catalog, under the
/// identifier of its file name: nothing where the file is not a theme
/// file by its name, could not be read, or holds no theme.
pub open spec fn source_item(source: ThemeSourceModel) -> Option<ThemeItemModel> {
    if is_json_file_name(source.file_name) {
        match source.content {
            Some(raw) => match theme_of_text(file_stem_of(source.file_name), raw) {
                Some(theme) => Some(ThemeItemModel { id: file_stem_of(source.file_name), theme }),
                None => None,
            },
            None => None,
        }
    } else {
        None
    }
}

/// Why a scanned file is reported as passed over: a theme file by its name
/// that could not be read, or whose text holds no theme. A file that is no
/// theme file by its name is passed over without a report.
pub open spec fn source_skip(source: ThemeSourceModel) -> Option<SkippedFileModel> {
    if is_json_file_name(source.file_name) {
        match source.content {
            Some(raw) => match theme_of_text(file_stem_of(source.file_name), raw) {
                Some(_) => None,
                None => Some(
                    SkippedFileModel { file_name: source.file_name, reason: SkipReason::Invalid },
                ),
            },
            None => Some(
                SkippedFileModel { file_name: source.file_name, reason: SkipReason::Unreadable },
            ),
        }
    } else {
        None
    }
}

/// The first position in `items` of an item with the identifier `id`.
pub open spec fn position_of(items: Seq<ThemeItemModel>, id: Seq<char>) -> Option<int>
    decreases items.len(),
{
    if items.len() == 0 {
        None
    } else {
        match position_of(items.drop_last(), id) {
            Some(k) => Some(k),
            None => if items.last().id == id {
                Some(items.len() - 1)
            } else {
                None
            },
        }
    }
}

/// `items` after `item` came in: in the place of the item that had its
/// identifier, where there was one, and at the end otherwise.
pub open spec fn inserted(items: Seq<ThemeItemModel>, item: ThemeItemModel) -> Seq<
    ThemeItemModel,
> {
    match position_of(items, item.id) {
        Some(k) => items.update(k, item),
        None => items.push(item),
    }
}

/// `items` after one scanned file.
pub open spec fn merged_source(items: Seq<ThemeItemModel>, source: ThemeSourceModel) -> Seq<
    ThemeItemModel,
> {
    match source_item(source) {
        Some(item) => inserted(items, item),
        None => items,
    }
}

/// `items` after the files of one directory, in the order of the scan.
pub open spec fn merged_dir(items: Seq<ThemeItemModel>, sources: Seq<ThemeSourceModel>) -> Seq<
    ThemeItemModel,
>
    decreases sources.len(),
{
    if sources.len() == 0 {
        items
    } else {
        merged_source(merged_dir(items, sources.drop_last()), sources.last())
    }
}

/// `items` after the directories `dirs`, the lowest priority first.
pub open spec fn merged_dirs(items: Seq<ThemeItemModel>, dirs: Seq<Seq<ThemeSourceModel>>) -> Seq<
    ThemeItemModel,
>
    decreases dirs.len(),
{
    if dirs.len() == 0 {
        items
    } else {
        merged_dir(merged_dirs(items, dirs.drop_last()), dirs.last())
    }
}

/// The reports of one directory's scan, in the order of the scan.
pub open spec fn skipped_in_dir(sources: Seq<ThemeSourceModel>) -> Seq<SkippedFileModel>
    decreases sources.len(),
{
    if sources.len() == 0 {
        Seq::empty()
    } else {
        match source_skip(sources.last()) {
            Some(report) => skipped_in_dir(sources.drop_last()).push(report),
            None => skipped_in_dir(sources.drop_last()),
        }
    }
}

/// The reports of the scans of `dirs`, directory after directory.
pub open spec fn skipped_in_dirs(dirs: Seq<Seq<ThemeSourceModel>>) -> Seq<SkippedFileModel>
    decreases dirs.len(),
{
    if dirs.len() == 0 {
        Seq::empty()
    } else {
        skipped_in_dirs(dirs.drop_last()) + skipped_in_dir(dirs.last())
    }
}

/// Whether no identifier occurs twice in `items`.
pub open spec fn distinct_ids(items: Seq<ThemeItemModel>) -> bool {
    forall|i: int, j: int|
        0 <= i < j < items.len() ==> (#[trigger] items[i]).id != (#[trigger] items[j]).id
}

/// The themes of a catalog that scanned `dirs`: what the directories merge
/// to, and the one built-in theme where that is nothing.
pub open spec fn catalog_items(dirs: Seq<Seq<ThemeSourceModel>>) -> Seq<ThemeItemModel> {
    let merged = merged_dirs(Seq::empty(), dirs);
    if merged.len() == 0 {
        seq![ThemeItemModel { id: FALLBACK_THEME_ID@, theme: fallback_theme_model() }]
    } else {
        merged
    }
}

/// The selection of a fresh catalog: the preferred theme where the catalog
/// has it, and the first theme otherwise.
pub open spec fn initial_selection(items: Seq<ThemeItemModel>) -> int {
    match position_of(items, PREFERRED_THEME_ID@) {
        Some(k) => k,
        None => 0,
    }
}

/// What a position means: it holds the identifier, and no earlier one does.
pub proof fn lemma_position_of(items: Seq<ThemeItemModel>, id: Seq<char>)
    ensures
        match position_of(items, id) {
            Some(k) => 0 <= k < items.len() && items[k].id == id && forall|j: int|
                0 <= j < k ==> (#[trigger] items[j]).id != id,
            None => forall|j: int| 0 <= j < items.len() ==> (#[trigger] items[j]).id != id,
        },
    decreases items.len(),
{
    if items.len() > 0 {
        let init = items.drop_last();
        lemma_position_of(init, id);
        assert forall|j: int| 0 <= j < init.len() implies init[j] == items[j] by {}
        match position_of(items, id) {
            Some(k) => {
                assert forall|j: int| 0 <= j < k implies (#[trigger] items[j]).id != id by {
                    assert(init[j].id != id);
                }
            },
            None => {
                assert forall|j: int| 0 <= j < items.len() implies (#[trigger] items[j]).id
                    != id by {
                    if j < init.len() {
                        assert(init[j].id != id);
                    }
                }
            },
        }
    }
}

/// The converse: the first place that holds an identifier is its position.
pub proof fn lemma_position_is(items: Seq<ThemeItemModel>, id: Seq<char>, k: int)
    requires
        0 <= k < items.len(),
        items[k].id == id,
        forall|j: int| 0 <= j < k ==> (#[trigger] items[j]).id != id,
    ensures
        position_of(items, id) == Some(k),
{
    lemma_position_of(items, id);
}

/// Whether the scanned file `source` brings a theme with the identifier `id`.
pub open spec fn brings(source: ThemeSourceModel, id: Seq<char>) -> bool {
    source_item(source) matches Some(item) && item.id == id
}

/// An item that comes in leaves every identifier where it stands: the
/// sequence of identifiers only grows, at its end.
pub proof fn lemma_inserted_keeps_ids(items: Seq<ThemeItemModel>, item: ThemeItemModel)
    ensures
        inserted(items, item).len() >= items.len(),
        forall|k: int|
            0 <= k < items.len() ==> (#[trigger] inserted(items, item)[k]).id == items[k].id,
        forall|k: int|
            0 <= k < items.len() && items[k].id != item.id ==> #[trigger] inserted(items, item)[k]
                == items[k],
{
    lemma_position_of(items, item.id);
}

/// An item that comes in leaves the position of every identifier that the
/// catalog holds already.
pub proof fn lemma_inserted_keeps_position(
    items: Seq<ThemeItemModel>,
    item: ThemeItemModel,
    id: Seq<char>,
)
    requires
        position_of(items, id) is Some,
    ensures
        position_of(inserted(items, item), id) == position_of(items, id),
{
    lemma_position_of(items, id);
    lemma_inserted_keeps_ids(items, item);
    let k = position_of(items, id)->0;
    let after = inserted(items, item);
    assert forall|j: int| 0 <= j < k implies (#[trigger] after[j]).id != id by {
        assert(items[j].id != id);
    }
    lemma_position_is(after, id, k);
}

/// An item that came in stands at the position of its identifier.
pub proof fn lemma_inserted_is_held(items: Seq<ThemeItemModel>, item: ThemeItemModel)
    ensures
        position_of(inserted(items, item), item.id) is Some,
        inserted(items, item)[position_of(inserted(items, item), item.id)->0] == item,
{
    lemma_position_of(items, item.id);
    let after = inserted(items, item);
    match position_of(items, item.id) {
        Some(k) => {
            assert forall|j: int| 0 <= j < k implies (#[trigger] after[j]).id != item.id by {
                assert(items[j].id != item.id);
            }
            lemma_position_is(after, item.id, k);
        },
        None => {
            let k = items.len() as int;
            assert forall|j: int| 0 <= j < k implies (#[trigger] after[j]).id != item.id by {
                assert(items[j].id != item.id);
            }
            lemma_position_is(after, item.id, k);
        },
    }
}

/// The position of an identifier is fixed by its first appearance: the
/// files of a directory that is merged later never move it.
pub proof fn lemma_dir_keeps_position(
    items: Seq<ThemeItemModel>,
    sources: Seq<ThemeSourceModel>,
    id: Seq<char>,
)
    requires
        position_of(items, id) is Some,
    ensures
        position_of(merged_dir(items, sources), id) == position_of(items, id),
    decreases sources.len(),
{
    if sources.len() > 0 {
        lemma_dir_keeps_position(items, sources.drop_last(), id);
        let before = merged_dir(items, sources.drop_last());
        match source_item(sources.last()) {
            Some(item) => {
                lemma_inserted_keeps_position(before, item, id);
            },
            None => {},
        }
    }
}

/// The position of an identifier is fixed by its first appearance: the
/// directories that are merged later never move it.
pub proof fn lemma_dirs_keep_position(
    items: Seq<ThemeItemModel>,
    dirs: Seq<Seq<ThemeSourceModel>>,
    id: Seq<char>,
)
    requires
        position_of(items, id) is Some,
    ensures
        position_of(merged_dirs(items, dirs), id) == position_of(items, id),
    decreases dirs.len(),
{
    if dirs.len() > 0 {
        lemma_dirs_keep_position(items, dirs.drop_last(), id);
        lemma_dir_keeps_position(merged_dirs(items, dirs.drop_last()), dirs.last(), id);
    }
}

/// Files that do not bring an identifier leave its item as it is.
pub proof fn lemma_dir_keeps_item(
    items: Seq<ThemeItemModel>,
    sources: Seq<ThemeSourceModel>,
    id: Seq<char>,
)
    requires
        position_of(items, id) is Some,
        forall|j: int| 0 <= j < sources.len() ==> !brings(#[trigger] sources[j], id),
    ensures
        position_of(merged_dir(items, sources), id) == position_of(items, id),
        merged_dir(items, sources)[position_of(items, id)->0] == items[position_of(items, id)->0],
    decreases sources.len(),
{
    lemma_position_of(items, id);
    if sources.len() > 0 {
        let init = sources.drop_last();
        assert forall|j: int| 0 <= j < init.len() implies !brings(#[trigger] init[j], id) by {
            assert(init[j] == sources[j]);
        }
        lemma_dir_keeps_item(items, init, id);
        let before = merged_dir(items, init);
        assert(!brings(sources[sources.len() - 1], id));
        match source_item(sources.last()) {
            Some(item) => {
                lemma_position_of(before, id);
                lemma_inserted_keeps_position(before, item, id);
                lemma_inserted_keeps_ids(before, item);
            },
            None => {},
        }
    }
}

/// Within one directory the file that is scanned last wins: the theme of
/// the last file that brings an identifier is the one that the merged
/// items hold under it.
pub proof fn lemma_last_file_wins(
    items: Seq<ThemeItemModel>,
    sources: Seq<ThemeSourceModel>,
    j: int,
)
    requires
        0 <= j < sources.len(),
        source_item(sources[j]) is Some,
        forall|l: int|
            j < l < sources.len() ==> !brings(#[trigger] sources[l], source_item(sources[j])->0.id),
    ensures
        position_of(merged_dir(items, sources), source_item(sources[j])->0.id) is Some,
        merged_dir(items, sources)[position_of(
            merged_dir(items, sources),
            source_item(sources[j])->0.id,
        )->0] == source_item(sources[j])->0,
    decreases sources.len(),
{
    let item = source_item(sources[j])->0;
    let init = sources.drop_last();
    let before = merged_dir(items, init);
    if j == sources.len() - 1 {
        lemma_inserted_is_held(before, item);
    } else {
        assert(init[j] == sources[j]);
        assert forall|l: int| j < l < init.len() implies !brings(#[trigger] init[l], item.id) by {
            assert(init[l] == sources[l]);
        }
        lemma_last_file_wins(items, init, j);
        assert(!brings(sources[sources.len() - 1], item.id));
        match source_item(sources.last()) {
            Some(other) => {
                lemma_position_of(before, item.id);
                lemma_inserted_keeps_position(before, other, item.id);
                lemma_inserted_keeps_ids(before, other);
            },
            None => {},
        }
    }
}

/// The directory of higher priority wins: where the file `j` of the
/// directory `d` is the last of the whole scan to bring its identifier, the
/// catalog holds that file's theme under it, whatever came before.
pub proof fn lemma_higher_priority_wins(
    items: Seq<ThemeItemModel>,
    dirs: Seq<Seq<ThemeSourceModel>>,
    d: int,
    j: int,
)
    requires
        0 <= d < dirs.len(),
        0 <= j < dirs[d].len(),
        source_item(dirs[d][j]) is Some,
        forall|l: int|
            j < l < dirs[d].len() ==> !brings(#[trigger] dirs[d][l], source_item(dirs[d][j])->0.id),
        forall|e: int, l: int|
            d < e < dirs.len() && 0 <= l < dirs[e].len() ==> !brings(
                #[trigger] dirs[e][l],
                source_item(dirs[d][j])->0.id,
            ),
    ensures
        position_of(merged_dirs(items, dirs), source_item(dirs[d][j])->0.id) is Some,
        merged_dirs(items, dirs)[position_of(
            merged_dirs(items, dirs),
            source_item(dirs[d][j])->0.id,
        )->0] == source_item(dirs[d][j])->0,
    decreases dirs.len(),
{
    let item = source_item(dirs[d][j])->0;
    let init = dirs.drop_last();
    let before = merged_dirs(items, init);
    if d == dirs.len() - 1 {
        lemma_last_file_wins(before, dirs[d], j);
    } else {
        assert(init[d] == dirs[d]);
        assert forall|e: int, l: int| d < e < init.len() && 0 <= l < init[e].len() implies !brings(
            #[trigger] init[e][l],
            item.id,
        ) by {
            assert(init[e] == dirs[e]);
        }
        lemma_higher_priority_wins(items, init, d, j);
        let last = dirs.last();
        assert forall|l: int| 0 <= l < last.len() implies !brings(#[trigger] last[l], item.id) by {
            assert(last[l] == dirs[dirs.len() - 1][l]);
        }
        lemma_dir_keeps_item(before, last, item.id);
    }
}

/// Merging directories one after the other is merging them all.
pub proof fn lemma_merged_dirs_append(
    items: Seq<ThemeItemModel>,
    earlier: Seq<Seq<ThemeSourceModel>>,
    later: Seq<Seq<ThemeSourceModel>>,
)
    ensures
        merged_dirs(items, earlier + later) == merged_dirs(merged_dirs(items, earlier), later),
    decreases later.len(),
{
    if later.len() == 0 {
        assert(earlier + later =~= earlier);
    } else {
        lemma_merged_dirs_append(items, earlier, later.drop_last());
        assert((earlier + later).drop_last() =~= earlier + later.drop_last());
        assert((earlier + later).last() == later.last());
    }
}

/// In a catalog the position of an identifier is fixed by its first
/// appearance: where the directories `earlier` bring an identifier, the
/// catalog of `earlier` and `later` holds it at the position that it has
/// after `earlier`.
pub proof fn lemma_catalog_keeps_first_position(
    earlier: Seq<Seq<ThemeSourceModel>>,
    later: Seq<Seq<ThemeSourceModel>>,
    id: Seq<char>,
)
    requires
        position_of(merged_dirs(Seq::empty(), earlier), id) is Some,
    ensures
        position_of(catalog_items(earlier + later), id) == position_of(
            merged_dirs(Seq::empty(), earlier),
            id,
        ),
{
    let first = merged_dirs(Seq::empty(), earlier);
    lemma_merged_dirs_append(Seq::empty(), earlier, later);
    lemma_dirs_keep_position(first, later, id);
    lemma_position_of(merged_dirs(first, later), id);
}

/// In a catalog the directory of higher priority wins: where the file `j`
/// of the directory `d` is the last of the whole scan to bring its
/// identifier, the catalog holds that file's theme under the identifier.
pub proof fn lemma_catalog_takes_highest_priority(dirs: Seq<Seq<ThemeSourceModel>>, d: int, j: int)
    requires
        0 <= d < dirs.len(),
        0 <= j < dirs[d].len(),
        source_item(dirs[d][j]) is Some,
        forall|l: int|
            j < l < dirs[d].len() ==> !brings(#[trigger] dirs[d][l], source_item(dirs[d][j])->0.id),
        forall|e: int, l: int|
            d < e < dirs.len() && 0 <= l < dirs[e].len() ==> !brings(
                #[trigger] dirs[e][l],
                source_item(dirs[d][j])->0.id,
            ),
    ensures
        position_of(catalog_items(dirs), source_item(dirs[d][j])->0.id) is Some,
        catalog_items(dirs)[position_of(catalog_items(dirs), source_item(dirs[d][j])->0.id)->0]
            == source_item(dirs[d][j])->0,
{
    lemma_higher_priority_wins(Seq::empty(), dirs, d, j);
    lemma_position_of(merged_dirs(Seq::empty(), dirs), source_item(dirs[d][j])->0.id);
}

/// An item that comes in leaves the identifiers distinct.
pub proof fn lemma_inserted_keeps_distinct(items: Seq<ThemeItemModel>, item: ThemeItemModel)
    requires
        distinct_ids(items),
    ensures
        distinct_ids(inserted(items, item)),
{
    lemma_position_of(items, item.id);
    lemma_inserted_keeps_ids(items, item);
    let after = inserted(items, item);
    assert forall|i: int, j: int| 0 <= i < j < after.len() implies (#[trigger] after[i]).id != (
    #[trigger] after[j]).id by {
        if j < items.len() {
            assert(items[i].id != items[j].id);
        } else {
            assert(items[i].id != item.id);
        }
    }
}

/// No identifier occurs twice among the merged items of a directory.
pub proof fn lemma_dir_keeps_distinct(items: Seq<ThemeItemModel>, sources: Seq<ThemeSourceModel>)
    requires
        distinct_ids(items),
    ensures
        distinct_ids(merged_dir(items, sources)),
    decreases sources.len(),
{
    if sources.len() > 0 {
        lemma_dir_keeps_distinct(items, sources.drop_last());
        match source_item(sources.last()) {
            Some(item) => {
                lemma_inserted_keeps_distinct(merged_dir(items, sources.drop_last()), item);
            },
            None => {},
        }
    }
}

/// Directories without files merge to what was there.
pub proof fn lemma_empty_dirs_merge_to_nothing(
    items: Seq<ThemeItemModel>,
    dirs: Seq<Seq<ThemeSourceModel>>,
)
    requires
        forall|d: int| 0 <= d < dirs.len() ==> (#[trigger] dirs[d]).len() == 0,
    ensures
        merged_dirs(items, dirs) == items,
    decreases dirs.len(),
{
    if dirs.len() > 0 {
        let init = dirs.drop_last();
        assert forall|d: int| 0 <= d < init.len() implies (#[trigger] init[d]).len() == 0 by {
            assert(init[d] == dirs[d]);
        }
        lemma_empty_dirs_merge_to_nothing(items, init);
        assert(dirs[dirs.len() - 1].len() == 0);
    }
}

/// A scan that finds no file at all still gives a catalog of one theme:
/// the built-in one.
pub proof fn lemma_empty_scan_gives_fallback(dirs: Seq<Seq<ThemeSourceModel>>)
    requires
        forall|d: int| 0 <= d < dirs.len() ==> (#[trigger] dirs[d]).len() == 0,
    ensures
        catalog_items(dirs) == seq![
            ThemeItemModel { id: FALLBACK_THEME_ID@, theme: fallback_theme_model() },
        ],
{
    lemma_empty_dirs_merge_to_nothing(Seq::empty(), dirs);
}

/// No identifier occurs twice in a catalog, and a catalog is never empty.
pub proof fn lemma_catalog_items(dirs: Seq<Seq<ThemeSourceModel>>)
    ensures
        distinct_ids(catalog_items(dirs)),
        catalog_items(dirs).len() > 0,
{
    lemma_dirs_keep_distinct(Seq::empty(), dirs);
}

/// No identifier occurs twice among the merged items of the directories.
pub proof fn lemma_dirs_keep_distinct(
    items: Seq<ThemeItemModel>,
    dirs: Seq<Seq<ThemeSourceModel>>,
)
    requires
        distinct_ids(items),
    ensures
        distinct_ids(merged_dirs(items, dirs)),
    decreases dirs.len(),
{
    if dirs.len() > 0 {
        lemma_dirs_keep_distinct(items, dirs.drop_last());
        lemma_dir_keeps_distinct(merged_dirs(items, dirs.drop_last()), dirs.last());
    }
}

/// Finds the first item with the identifier `id`.
pub fn find_item(items: &Vec<ThemeItem>, id: &str) -> (found: Option<usize>)
    ensures
        match found {
            Some(k) => position_of(item_models(items@), id@) == Some(k as int) && k < items.len(),
            None => position_of(item_models(items@), id@) is None,
        },
{
    let ghost models = item_models(items@);
    let mut i: usize = 0;
    while i < items.len()
        invariant
            i <= items.len(),
            models == item_models(items@),
            position_of(models.take(i as int), id@) is None,
        decreases items.len() - i,
    {
        proof {
            assert(models.take(i as int + 1).drop_last() =~= models.take(i as int));
            assert(models.take(i as int + 1).last() == items@[i as int]@);
        }
        if same_text(items[i].id.as_str(), id) {
            proof {
                lemma_position_prefix(models, id@, i as int + 1);
            }
            return Some(i);
        }
        i += 1;
    }
    assert(models.take(items.len() as int) =~= models);
    None
}

/// A position found in a prefix is the position in the whole.
pub proof fn lemma_position_prefix(items: Seq<ThemeItemModel>, id: Seq<char>, n: int)
    requires
        0 <= n <= items.len(),
        position_of(items.take(n), id) is Some,
    ensures
        position_of(items, id) == position_of(items.take(n), id),
    decreases items.len() - n,
{
    if n < items.len() {
        assert(items.take(n + 1).drop_last() =~= items.take(n));
        lemma_position_prefix(items, id, n + 1);
    } else {
        assert(items.take(n) =~= items);
    }
}

/// Puts `theme` into `items` under `id`: in the place of the item with
/// that identifier, where there is one, and at the end otherwise.
pub fn insert_theme(items: &mut Vec<ThemeItem>, id: String, theme: Theme)
    ensures
        item_models(final(items)@) == inserted(
            item_models(old(items)@),
            ThemeItemModel { id: id@, theme: theme@ },
        ),
{
    let ghost before = item_models(items@);
    let ghost item = ThemeItemModel { id: id@, theme: theme@ };
    match find_item(items, id.as_str()) {
        Some(k) => {
            items.set(k, ThemeItem { id, theme });
            assert(item_models(items@) =~= before.update(k as int, item));
        },
        None => {
            items.push(ThemeItem { id, theme });
            assert(item_models(items@) =~= before.push(item));
        },
    }
}

/// Merges the files of one scanned directory into `items`, in the order of
/// the scan, and returns a report for each theme file that was passed over.
///
/// A file counts where its name has the extension `json`. Its theme comes
/// in under the stem of its name: in the place of an item that has that
/// identifier already, and at the end otherwise. A theme file that could
/// not be read, or that holds no theme, changes nothing and is reported.
pub fn merge_theme_dir(sources: &Vec<ThemeSource>, items: &mut Vec<ThemeItem>) -> (skipped: Vec<
    SkippedFile,
>)
    ensures
        item_models(final(items)@) == merged_dir(item_models(old(items)@), source_models(sources@)),
        skipped_models(skipped@) == skipped_in_dir(source_models(sources@)),
{
    let ghost start = item_models(items@);
    let ghost models = source_models(sources@);
    let mut skipped: Vec<SkippedFile> = Vec::new();
    let mut i: usize = 0;
    assert(skipped_models(skipped@) =~= skipped_in_dir(models.take(0)));
    while i < sources.len()
        invariant
            i <= sources.len(),
            models == source_models(sources@),
            item_models(items@) == merged_dir(start, models.take(i as int)),
            skipped_models(skipped@) == skipped_in_dir(models.take(i as int)),
        decreases sources.len() - i,
    {
        proof {
            assert(models.take(i as int + 1).drop_last() =~= models.take(i as int));
            assert(models.take(i as int + 1).last() == sources@[i as int]@);
        }
        let ghost reports = skipped_models(skipped@);
        let source = &sources[i];
        if is_json_file(source.file_name.as_str()) {
            match &source.content {
                Some(raw) => {
                    let id = theme_id(source.file_name.as_str());
                    match parse_theme_from_str(id.as_str(), raw.as_str()) {
                        Some(theme) => {
                            insert_theme(items, id, theme);
                        },
                        None => {
                            skipped.push(
                                SkippedFile {
                                    file_name: source.file_name.clone(),
                                    reason: SkipReason::Invalid,
                                },
                            );
                            assert(skipped_models(skipped@) =~= reports.push(
                                source_skip(source@)->0,
                            ));
                        },
                    }
                },
                None => {
                    skipped.push(
                        SkippedFile {
                            file_name: source.file_name.clone(),
                            reason: SkipReason::Unreadable,
                        },
                    );
                    assert(skipped_models(skipped@) =~= reports.push(source_skip(source@)->0));
                },
            }
        }
        i += 1;
    }
    assert(models.take(sources.len() as int) =~= models);
    skipped
}

/// The loaded themes, in the order in which their identifiers were first
/// seen, and the one that is selected. A catalog is never empty.
#[derive(Debug)]
pub struct ThemeCatalog {
    themes: Vec<ThemeItem>,
    selected_idx: usize,
}

/// What a [`ThemeCatalog`] holds.
pub ghost struct CatalogModel {
    pub items: Seq<ThemeItemModel>,
    pub selected: int,
}

impl View for ThemeCatalog {
    type V = CatalogModel;

    closed spec fn view(&self) -> CatalogModel {
        CatalogModel { items: item_models(self.themes@), selected: self.selected_idx as int }
    }
}

impl Clone for ThemeCatalog {
    fn clone(&self) -> (copy: Self)
        ensures
            copy@ == self@,
    {
        proof {
            use_type_invariant(self);
        }
        let mut themes: Vec<ThemeItem> = Vec::new();
        let mut i: usize = 0;
        while i < self.themes.len()
            invariant
                i <= self.themes.len(),
                themes@.len() == i,
                forall|k: int| 0 <= k < i ==> (#[trigger] themes@[k])@ == self.themes@[k]@,
            decreases self.themes.len() - i,
        {
            themes.push(self.themes[i].clone());
            i += 1;
        }
        assert(item_models(themes@) =~= item_models(self.themes@));
        ThemeCatalog { themes, selected_idx: self.selected_idx }
    }
}

impl ThemeCatalog {
    #[verifier::type_invariant]
    spec fn selection_is_valid(self) -> bool {
        self.selected_idx < self.themes@.len()
    }

    /// Builds the catalog of the scanned directories `dirs`, which stand in
    /// the order of rising priority, and returns with it a report for each
    /// theme file that was passed over.
    ///
    /// A theme of a later file takes the place of the theme that has its
    /// identifier, and leaves the order of the identifiers as it is. Where
    /// no file holds a theme, the catalog holds the one built-in theme. The
    /// preferred theme is selected where the catalog has it, and the first
    /// theme otherwise.
    #[must_use]
    pub fn load_reporting(dirs: &Vec<Vec<ThemeSource>>) -> (loaded: (Self, Vec<SkippedFile>))
        ensures
            loaded.0@.items == catalog_items(dir_models(dirs@)),
            loaded.0@.selected == initial_selection(loaded.0@.items),
            loaded.0@.items.len() > 0,
            skipped_models(loaded.1@) == skipped_in_dirs(dir_models(dirs@)),
    {
        let ghost models = dir_models(dirs@);
        let mut themes: Vec<ThemeItem> = Vec::new();
        let mut skipped: Vec<SkippedFile> = Vec::new();
        let mut i: usize = 0;
        assert(item_models(themes@) =~= merged_dirs(Seq::empty(), models.take(0)));
        assert(skipped_models(skipped@) =~= skipped_in_dirs(models.take(0)));
        while i < dirs.len()
            invariant
                i <= dirs.len(),
                models == dir_models(dirs@),
                item_models(themes@) == merged_dirs(Seq::empty(), models.take(i as int)),
                skipped_models(skipped@) == skipped_in_dirs(models.take(i as int)),
            decreases dirs.len() - i,
        {
            proof {
                assert(models.take(i as int + 1).drop_last() =~= models.take(i as int));
                assert(models.take(i as int + 1).last() == source_models(dirs@[i as int]@));
            }
            let ghost reports = skipped_models(skipped@);
            let mut more = merge_theme_dir(&dirs[i], &mut themes);
            let ghost added = skipped_models(more@);
            skipped.append(&mut more);
            assert(skipped_models(skipped@) =~= reports + added);
            i += 1;
        }
        assert(models.take(dirs.len() as int) =~= models);
        if themes.len() == 0 {
            insert_theme(&mut themes, FALLBACK_THEME_ID.to_owned(), fallback_theme());
            assert(item_models(themes@) =~= catalog_items(models));
        }
        let selected_idx = match find_item(&themes, PREFERRED_THEME_ID) {
            Some(k) => k,
            None => 0,
        };
        (ThemeCatalog { themes, selected_idx }, skipped)
    }

    /// Builds the catalog of the scanned directories `dirs`, which stand in
    /// the order of rising priority.
    ///
    /// See [`ThemeCatalog::load_reporting`], which also says which files
    /// were passed over.
    #[must_use]
    pub fn load(dirs: &Vec<Vec<ThemeSource>>) -> (catalog: Self)
        ensures
            catalog@.items == catalog_items(dir_models(dirs@)),
            catalog@.selected == initial_selection(catalog@.items),
            catalog@.items.len() > 0,
    {
        let (catalog, _) = Self::load_reporting(dirs);
        catalog
    }

    /// The number of themes; never zero.
    #[must_use]
    pub fn len(&self) -> (n: usize)
        ensures
            n == self@.items.len(),
            n > 0,
    {
        proof {
            use_type_invariant(self);
        }
        self.themes.len()
    }

    /// Whether the catalog holds no theme; it never does.
    #[must_use]
    pub fn is_empty(&self) -> (empty: bool)
        ensures
            !empty,
            empty == (self@.items.len() == 0),
    {
        proof {
            use_type_invariant(self);
        }
        self.themes.len() == 0
    }

    /// The selected theme.
    #[must_use]
    pub fn current_theme(&self) -> (theme: &Theme)
        ensures
            0 <= self@.selected < self@.items.len(),
            theme@ == self@.items[self@.selected].theme,
    {
        proof {
            use_type_invariant(self);
        }
        &self.themes[self.selected_idx].theme
    }

    /// The position of the selected theme.
    #[must_use]
    pub fn current_index(&self) -> (idx: usize)
        ensures
            idx == self@.selected,
            idx < self@.items.len(),
    {
        proof {
            use_type_invariant(self);
        }
        self.selected_idx
    }

    /// The identifier of the selected theme.
    #[must_use]
    pub fn current_id(&self) -> (id: &str)
        ensures
            0 <= self@.selected < self@.items.len(),
            id@ == self@.items[self@.selected].id,
    {
        proof {
            use_type_invariant(self);
        }
        self.themes[self.selected_idx].id.as_str()
    }

    /// All themes, in catalog order.
    #[must_use]
    pub fn items(&self) -> (items: &[ThemeItem])
        ensures
            item_models(items@) == self@.items,
    {
        self.themes.as_slice()
    }

    /// The theme at position `idx`, if the catalog has that many.
    #[must_use]
    pub fn theme_at(&self, idx: usize) -> (theme: Option<&Theme>)
        ensures
            match theme {
                Some(t) => idx < self@.items.len() && t@ == self@.items[idx as int].theme,
                None => idx >= self@.items.len(),
            },
    {
        if idx < self.themes.len() {
            Some(&self.themes[idx].theme)
        } else {
            None
        }
    }

    /// The identifier at position `idx`, if the catalog has that many.
    #[must_use]
    pub fn id_at(&self, idx: usize) -> (id: Option<&str>)
        ensures
            match id {
                Some(text) => idx < self@.items.len() && text@ == self@.items[idx as int].id,
                None => idx >= self@.items.len(),
            },
    {
        if idx < self.themes.len() {
            Some(self.themes[idx].id.as_str())
        } else {
            None
        }
    }

    /// Selects the theme at position `idx`. Returns whether there is one;
    /// where there is none, the selection stays.
    pub fn select_index(&mut self, idx: usize) -> (selected: bool)
        ensures
            selected == (idx < old(self)@.items.len()),
            final(self)@.items == old(self)@.items,
            final(self)@.selected == if selected {
                idx as int
            } else {
                old(self)@.selected
            },
    {
        if idx < self.themes.len() {
            self.selected_idx = idx;
            return true;
        }
        false
    }

    /// Selects the theme after the selected one, and the first theme after
    /// the last.
    pub fn select_next(&mut self)
        ensures
            final(self)@.items == old(self)@.items,
            final(self)@.selected == (old(self)@.selected + 1) % (old(self)@.items.len() as int),
    {
        proof {
            use_type_invariant(&*self);
        }
        assert(self.selected_idx < self.themes.len());
        self.selected_idx = (self.selected_idx + 1) % self.themes.len();
    }

    /// Selects the theme before the selected one, and the last theme before
    /// the first.
    pub fn select_previous(&mut self)
        ensures
            final(self)@.items == old(self)@.items,
            final(self)@.selected == if old(self)@.selected == 0 {
                old(self)@.items.len() - 1
            } else {
                old(self)@.selected - 1
            },
    {
        proof {
            use_type_invariant(&*self);
        }
        self.selected_idx = if self.selected_idx == 0 {
            self.themes.len() - 1
        } else {
            self.selected_idx - 1
        };
    }

    /// Selects the first theme with the identifier `id`. Returns whether
    /// there is one; where there is none, the selection stays.
    #[must_use]
    pub fn select_by_id(&mut self, id: &str) -> (selected: bool)
        ensures
            selected == position_of(old(self)@.items, id@) is Some,
            final(self)@.items == old(self)@.items,
            final(self)@.selected == match position_of(old(self)@.items, id@) {
                Some(k) => k,
                None => old(self)@.selected,
            },
    {
        if let Some(idx) = find_item(&self.themes, id) {
            self.selected_idx = idx;
            return true;
        }
        false
    }
}

/// The directories to scan for themes, in the order of rising priority:
/// the one beside the executable, the one of the project, unless it is the
/// same directory, the one of the working directory, unless it is among
/// them already, and the one of the user's configuration.
pub open spec fn search_order(
    beside_exe: Option<Seq<char>>,
    in_project: Option<Seq<char>>,
    in_cwd: Seq<char>,
    in_config: Option<Seq<char>>,
) -> Seq<Seq<char>> {
    let first = match beside_exe {
        Some(dir) => seq![dir],
        None => Seq::empty(),
    };
    let second = match in_project {
        Some(dir) => if first.contains(dir) {
            first
        } else {
            first.push(dir)
        },
        None => first,
    };
    let third = if second.contains(in_cwd) {
        second
    } else {
        second.push(in_cwd)
    };
    match in_config {
        Some(dir) => third.push(dir),
        None => third,
    }
}

/// Orders the theme directories for a scan, the lowest priority first, so
/// that a later directory overrides an earlier one.
///
/// Each argument is the path of a theme directory: beside the executable,
/// below the project root, below the working directory, and below the
/// user's configuration directory. A path is left out where the place is
/// not known. The project's and the working directory's are left out where
/// they repeat an earlier one.
pub fn theme_dirs(
    beside_exe: Option<String>,
    in_project: Option<String>,
    in_cwd: String,
    in_config: Option<String>,
) -> (dirs: Vec<String>)
    ensures
        texts_of(dirs@) == search_order(
            match beside_exe {
                Some(dir) => Some(dir@),
                None => None,
            },
            match in_project {
                Some(dir) => Some(dir@),
                None => None,
            },
            in_cwd@,
            match in_config {
                Some(dir) => Some(dir@),
                None => None,
            },
        ),
{
    let mut dirs: Vec<String> = Vec::new();
    assert(texts_of(dirs@) =~= Seq::empty());
    if let Some(dir) = beside_exe {
        dirs.push(dir);
        assert(texts_of(dirs@) =~= seq![dir@]);
    }
    if let Some(dir) = in_project {
        if !holds_text(&dirs, dir.as_str()) {
            let ghost before = texts_of(dirs@);
            dirs.push(dir);
            assert(texts_of(dirs@) =~= before.push(dir@));
        }
    }
    if !holds_text(&dirs, in_cwd.as_str()) {
        let ghost before = texts_of(dirs@);
        dirs.push(in_cwd);
        assert(texts_of(dirs@) =~= before.push(in_cwd@));
    }
    if let Some(dir) = in_config {
        let ghost before = texts_of(dirs@);
        dirs.push(dir);
        assert(texts_of(dirs@) =~= before.push(dir@));
    }
    dirs
}

/// Finds the project root among a directory and its ancestors.
///
/// `has_marker` says of the directory itself, then of its parent, and so
/// on upward, whether it holds the version-control marker. Returns the
/// position of the first that does.
pub fn find_project_root(has_marker: &Vec<bool>) -> (root: Option<usize>)
    ensures
        match root {
            Some(k) => k < has_marker.len() && has_marker[k as int] && forall|j: int|
                0 <= j < k ==> !has_marker[j],
            None => forall|j: int| 0 <= j < has_marker.len() ==> !has_marker[j],
        },
{
    let mut i: usize = 0;
    while i < has_marker.len()
        invariant
            i <= has_marker.len(),
            forall|j: int| 0 <= j < i ==> !has_marker[j],
        decreases has_marker.len() - i,
    {
        if has_marker[i] {
            return Some(i);
        }
        i += 1;
    }
    None
}

} // verus!
