//! What publishing, deleting and joining catalogues means for each entry.

use crate::catalogue::{CatalogueModel, PublishedRecord};
use crate::file_catalogue::FilesModel;
use crate::vfs::{
    ProcessVfsDirectory, ProcessVfsFileRecord, ProcessVfsResourceFileRecord,
    ProcessVfsVolumeRecord, VfsEntry,
};
use vstd::prelude::*;

verus! {

/// A published record stands in the catalogue with its type, its creator, its
/// Finder flags and its folder, whether or not the path was known before. A
/// new path draws the next file number and date; a changed file gets a
/// modification date of its own, an unchanged one keeps what it had.
pub proof fn published_record_stands_in_the_catalogue(
    catalogue: CatalogueModel,
    record: PublishedRecord,
    parent: u32,
)
    ensures
        ({
            let after = catalogue.published(record, parent);
            let path = record.path@;
            let known = catalogue.metadata.dom().contains(path);
            let entry = after.metadata[path];
            let now = catalogue.next_timestamp;
            &&& after.metadata.dom().contains(path)
            &&& entry.file_type == record.file_type
            &&& entry.creator == record.creator
            &&& entry.finder_flags == record.finder_flags
            &&& entry.parent_dir_id == parent
            &&& known ==> {
                &&& entry.file_id == catalogue.metadata[path].file_id
                &&& entry.created_date == catalogue.metadata[path].created_date
                &&& entry.modified_date == if record.dirty {
                    now
                } else {
                    catalogue.metadata[path].modified_date
                }
                &&& after.next_file_id == catalogue.next_file_id
                &&& !record.dirty ==> after.next_timestamp == now
                &&& record.dirty && now < u32::MAX ==> after.next_timestamp == now + 1
            }
            &&& !known ==> {
                &&& entry.file_id == catalogue.next_file_id
                &&& entry.created_date == now
                &&& catalogue.next_file_id < u32::MAX ==> after.next_file_id
                    == catalogue.next_file_id + 1
                &&& !record.dirty ==> entry.modified_date == now
                &&& !record.dirty && now < u32::MAX ==> after.next_timestamp == now + 1
                &&& record.dirty && now < u32::MAX - 1 ==> entry.modified_date == now + 1
                    && after.next_timestamp == now + 2
            }
            &&& forall|other: Seq<char>|
                other != path ==> {
                    &&& #[trigger] after.metadata.dom().contains(other)
                        == catalogue.metadata.dom().contains(other)
                    &&& catalogue.metadata.dom().contains(other) ==> after.metadata[other]
                        == catalogue.metadata[other]
                }
        }),
{
}

/// Of the records that are published together, the last of a path is what the
/// catalogue says of it; a path that no record has stays as it was, and a
/// record without a path changes nothing.
pub proof fn last_record_of_a_path_is_published(
    catalogue: CatalogueModel,
    records: Seq<PublishedRecord>,
    directories: Seq<ProcessVfsDirectory>,
    path: Seq<char>,
)
    ensures
        ({
            let after = catalogue.published_all(records, directories);
            &&& forall|i: int|
                #![trigger records[i]]
                0 <= i < records.len() && records[i].path@ == path && path.len() > 0 && (forall|
                    j: int,
                |
                    i < j < records.len() ==> (#[trigger] records[j]).path@ != path) ==> {
                    &&& after.metadata.dom().contains(path)
                    &&& after.metadata[path].file_type == records[i].file_type
                    &&& after.metadata[path].creator == records[i].creator
                    &&& after.metadata[path].finder_flags == records[i].finder_flags
                    &&& after.metadata[path].parent_dir_id == crate::catalogue::parent_dir(
                        directories,
                        path,
                    )
                    &&& catalogue.metadata.dom().contains(path) ==> after.metadata[path].file_id
                        == catalogue.metadata[path].file_id && after.metadata[path].created_date
                        == catalogue.metadata[path].created_date
                }
            &&& (path.len() == 0 || forall|j: int|
                0 <= j < records.len() ==> (#[trigger] records[j]).path@ != path) ==> {
                &&& after.metadata.dom().contains(path) == catalogue.metadata.dom().contains(path)
                &&& catalogue.metadata.dom().contains(path) ==> after.metadata[path]
                    == catalogue.metadata[path]
            }
            &&& catalogue.metadata.dom().contains(path) ==> after.metadata.dom().contains(path)
                && after.metadata[path].file_id == catalogue.metadata[path].file_id
                && after.metadata[path].created_date == catalogue.metadata[path].created_date
        }),
    decreases records.len(),
{
    if records.len() > 0 {
        let shorter = records.drop_last();
        let last = records.last();
        last_record_of_a_path_is_published(catalogue, shorter, directories, path);
        let before = catalogue.published_all(shorter, directories);
        published_record_stands_in_the_catalogue(
            before,
            last,
            crate::catalogue::parent_dir(directories, last.path@),
        );
        assert forall|i: int|
            #![trigger records[i]]
            0 <= i < records.len() && records[i].path@ == path && path.len() > 0 && (forall|j: int|
                i < j < records.len() ==> (#[trigger] records[j]).path@ != path) implies {
            let after = catalogue.published_all(records, directories);
            &&& after.metadata.dom().contains(path)
            &&& after.metadata[path].file_type == records[i].file_type
            &&& after.metadata[path].creator == records[i].creator
            &&& after.metadata[path].finder_flags == records[i].finder_flags
            &&& after.metadata[path].parent_dir_id == crate::catalogue::parent_dir(
                directories,
                path,
            )
            &&& catalogue.metadata.dom().contains(path) ==> after.metadata[path].file_id
                == catalogue.metadata[path].file_id && after.metadata[path].created_date
                == catalogue.metadata[path].created_date
        } by {
            if i < shorter.len() {
                assert(shorter[i] == records[i]);
                assert forall|j: int| i < j < shorter.len() implies (#[trigger] shorter[j]).path@
                    != path by {
                    assert(shorter[j] == records[j]);
                }
                assert(records[records.len() - 1].path@ != path);
            }
        }
        if forall|j: int| 0 <= j < records.len() ==> (#[trigger] records[j]).path@ != path {
            assert forall|j: int| 0 <= j < shorter.len() implies (#[trigger] shorter[j]).path@
                != path by {
                assert(shorter[j] == records[j]);
            }
            assert(records[records.len() - 1].path@ != path);
        }
    }
}

/// Every file and every resource file is published with its own path, type,
/// creator, flags and mark; nothing else is.
pub proof fn every_file_is_published(
    files: Seq<ProcessVfsFileRecord>,
    resource_files: Seq<ProcessVfsResourceFileRecord>,
)
    ensures
        ({
            let records = crate::file_catalogue::published_records(files, resource_files);
            &&& records.len() == files.len() + resource_files.len()
            &&& forall|i: int|
                0 <= i < files.len() ==> {
                    &&& (#[trigger] records[i]).path == files[i].path
                    &&& records[i].file_type == files[i].file_type
                    &&& records[i].creator == files[i].creator
                    &&& records[i].finder_flags == files[i].finder_flags
                    &&& records[i].dirty == files[i].dirty
                }
            &&& forall|i: int|
                #![trigger resource_files[i]]
                0 <= i < resource_files.len() ==> {
                    let record = records[files.len() + i];
                    &&& record.path == resource_files[i].path
                    &&& record.file_type == resource_files[i].file_type
                    &&& record.creator == resource_files[i].creator
                    &&& record.finder_flags == resource_files[i].finder_flags
                    &&& record.dirty == resource_files[i].dirty
                }
        }),
{
}

/// After the catalogue was published with nothing to delete, it says of a
/// resource file what its record says, and of a file without a resource file
/// of its path what the file's record says.
pub proof fn published_catalogue_agrees_with_the_files(
    model: FilesModel,
    directories: Seq<ProcessVfsDirectory>,
    i: int,
)
    requires
        0 <= i < model.files.len(),
        model.files[i].path@.len() > 0,
        forall|j: int| i < j < model.files.len() ==> (#[trigger] model.files[j]).path@
            != model.files[i].path@,
        forall|j: int|
            0 <= j < model.resource_files.len() ==> (#[trigger] model.resource_files[j]).path@
                != model.files[i].path@,
    ensures
        ({
            let after = model.published(directories, Seq::empty());
            let entry = after.catalogue.metadata[model.files[i].path@];
            &&& after.files == model.files
            &&& after.data_forks == model.data_forks
            &&& after.resource_files == model.resource_files
            &&& after.resource_forks == model.resource_forks
            &&& after.locked == model.locked
            &&& after.catalogue.metadata.dom().contains(model.files[i].path@)
            &&& entry.file_type == model.files[i].file_type
            &&& entry.creator == model.files[i].creator
            &&& entry.finder_flags == model.files[i].finder_flags
        }),
{
    let records = crate::file_catalogue::published_records(model.files, model.resource_files);
    every_file_is_published(model.files, model.resource_files);
    last_record_of_a_path_is_published(model.catalogue, records, directories, model.files[i].path@);
    assert forall|j: int| i < j < records.len() implies (#[trigger] records[j]).path@
        != model.files[i].path@ by {
        if j < model.files.len() {
            assert(model.files[j].path@ != model.files[i].path@);
        } else {
            assert(model.resource_files[j - model.files.len()].path@ != model.files[i].path@);
        }
    }
    assert(records[i].path == model.files[i].path);
}

/// A file lies in the folder whose path, but for case, comes before its last
/// slash: the first folder that is recorded with it. A file whose folder is not
/// recorded lies in the root.
pub proof fn file_lies_in_its_folder(
    directories: Seq<ProcessVfsDirectory>,
    folder: Seq<char>,
    leaf: Seq<char>,
    index: int,
)
    requires
        !leaf.contains('/'),
        forall|i: int|
            0 <= i < index && i < directories.len() ==> !crate::text::same_name(
                (#[trigger] directories[i]).path@,
                folder,
            ),
    ensures
        0 <= index < directories.len() && crate::text::same_name(directories[index].path@, folder)
            ==> crate::catalogue::parent_dir(directories, folder.push('/') + leaf)
            == directories[index].dir_id,
        index == directories.len() ==> crate::catalogue::parent_dir(
            directories,
            folder.push('/') + leaf,
        ) == 2,
{
    crate::text::child_lies_below_its_parent(folder, leaf);
    crate::vfs::lemma_record_index(directories, folder);
    let found = crate::vfs::record_index(directories, folder);
    if found >= 0 {
        assert(crate::text::same_name(directories[found].path@, folder));
    }
    if 0 <= index < directories.len() && crate::text::same_name(directories[index].path@, folder) {
        assert(crate::text::same_name(directories[index].name(), folder));
    }
}

/// Volumes that join take nothing away and change nothing: known ones stay
/// where they are, only volumes of the others are added, every other volume is
/// there by its number or its name, and no added one shares its number or its
/// name with one before it.
pub proof fn joined_volumes_are_known_once(
    volumes: Seq<ProcessVfsVolumeRecord>,
    others: Seq<ProcessVfsVolumeRecord>,
)
    ensures
        ({
            let joined = crate::catalogue::volumes_joined(volumes, others);
            &&& volumes.len() <= joined.len()
            &&& joined.take(volumes.len() as int) == volumes
            &&& forall|k: int|
                volumes.len() <= k < joined.len() ==> others.contains(#[trigger] joined[k])
            &&& forall|i: int|
                0 <= i < others.len() ==> exists|k: int|
                    0 <= k < joined.len() && ((#[trigger] joined[k]).ref_num == (
                    #[trigger] others[i]).ref_num || crate::text::same_name(
                        joined[k].name@,
                        others[i].name@,
                    ))
            &&& forall|a: int, b: int|
                0 <= a < b < joined.len() && volumes.len() <= b ==> (#[trigger] joined[a]).ref_num
                    != (#[trigger] joined[b]).ref_num && !crate::text::same_name(
                    joined[a].name@,
                    joined[b].name@,
                )
        }),
    decreases others.len(),
{
    let joined = crate::catalogue::volumes_joined(volumes, others);
    if others.len() == 0 {
        assert(joined.take(volumes.len() as int) =~= volumes);
    } else {
        let shorter = others.drop_last();
        let last = others.last();
        let before = crate::catalogue::volumes_joined(volumes, shorter);
        joined_volumes_are_known_once(volumes, shorter);
        assert(joined.take(volumes.len() as int) =~= before.take(volumes.len() as int));
        assert forall|k: int| volumes.len() <= k < joined.len() implies others.contains(
            #[trigger] joined[k],
        ) by {
            if k < before.len() {
                assert(shorter.contains(before[k]));
                let i = choose|i: int| 0 <= i < shorter.len() && shorter[i] == before[k];
                assert(others[i] == joined[k]);
            } else {
                assert(others[others.len() - 1] == joined[k]);
            }
        }
        assert forall|i: int| 0 <= i < others.len() implies exists|k: int|
            0 <= k < joined.len() && ((#[trigger] joined[k]).ref_num == (
            #[trigger] others[i]).ref_num || crate::text::same_name(
                joined[k].name@,
                others[i].name@,
            )) by {
            if i < shorter.len() {
                assert(shorter[i] == others[i]);
                let k = choose|k: int|
                    0 <= k < before.len() && ((#[trigger] before[k]).ref_num == shorter[i].ref_num
                        || crate::text::same_name(before[k].name@, shorter[i].name@));
                assert(joined[k] == before[k]);
            } else if crate::catalogue::volume_known(before, last) {
                let k = choose|k: int|
                    0 <= k < before.len() && ((#[trigger] before[k]).ref_num == last.ref_num
                        || crate::text::same_name(before[k].name@, last.name@));
                assert(joined[k] == before[k]);
            } else {
                assert(joined[before.len() as int] == last);
                crate::text::same_name_is_an_equivalence(last.name@, last.name@, last.name@);
            }
        }
        assert forall|a: int, b: int|
            0 <= a < b < joined.len() && volumes.len() <= b implies (#[trigger] joined[a]).ref_num
            != (#[trigger] joined[b]).ref_num && !crate::text::same_name(
            joined[a].name@,
            joined[b].name@,
        ) by {
            assert(joined[a] == before[a]);
            if b < before.len() {
                assert(joined[b] == before[b]);
            }
        }
    }
}

/// Folders that join take nothing away and change nothing: known ones stay
/// where they are, only folders of the others are added, every other folder is
/// there by its number or its path, and no added one shares its number or its
/// path with one before it.
pub proof fn joined_directories_are_known_once(
    directories: Seq<ProcessVfsDirectory>,
    others: Seq<ProcessVfsDirectory>,
)
    ensures
        ({
            let joined = crate::catalogue::directories_joined(directories, others);
            &&& directories.len() <= joined.len()
            &&& joined.take(directories.len() as int) == directories
            &&& forall|k: int|
                directories.len() <= k < joined.len() ==> others.contains(#[trigger] joined[k])
            &&& forall|i: int|
                0 <= i < others.len() ==> exists|k: int|
                    0 <= k < joined.len() && ((#[trigger] joined[k]).dir_id == (
                    #[trigger] others[i]).dir_id || crate::text::same_name(
                        joined[k].path@,
                        others[i].path@,
                    ))
            &&& forall|a: int, b: int|
                0 <= a < b < joined.len() && directories.len() <= b ==> (
                #[trigger] joined[a]).dir_id != (#[trigger] joined[b]).dir_id
                    && !crate::text::same_name(joined[a].path@, joined[b].path@)
        }),
    decreases others.len(),
{
    let joined = crate::catalogue::directories_joined(directories, others);
    if others.len() == 0 {
        assert(joined.take(directories.len() as int) =~= directories);
    } else {
        let shorter = others.drop_last();
        let last = others.last();
        let before = crate::catalogue::directories_joined(directories, shorter);
        joined_directories_are_known_once(directories, shorter);
        assert(joined.take(directories.len() as int) =~= before.take(directories.len() as int));
        assert forall|k: int| directories.len() <= k < joined.len() implies others.contains(
            #[trigger] joined[k],
        ) by {
            if k < before.len() {
                assert(shorter.contains(before[k]));
                let i = choose|i: int| 0 <= i < shorter.len() && shorter[i] == before[k];
                assert(others[i] == joined[k]);
            } else {
                assert(others[others.len() - 1] == joined[k]);
            }
        }
        assert forall|i: int| 0 <= i < others.len() implies exists|k: int|
            0 <= k < joined.len() && ((#[trigger] joined[k]).dir_id == (#[trigger] others[i]).dir_id
                || crate::text::same_name(joined[k].path@, others[i].path@)) by {
            if i < shorter.len() {
                assert(shorter[i] == others[i]);
                let k = choose|k: int|
                    0 <= k < before.len() && ((#[trigger] before[k]).dir_id == shorter[i].dir_id
                        || crate::text::same_name(before[k].path@, shorter[i].path@));
                assert(joined[k] == before[k]);
            } else if crate::catalogue::directory_known(before, last) {
                let k = choose|k: int|
                    0 <= k < before.len() && ((#[trigger] before[k]).dir_id == last.dir_id
                        || crate::text::same_name(before[k].path@, last.path@));
                assert(joined[k] == before[k]);
            } else {
                assert(joined[before.len() as int] == last);
            }
        }
        assert forall|a: int, b: int|
            0 <= a < b < joined.len() && directories.len() <= b implies (
        #[trigger] joined[a]).dir_id != (#[trigger] joined[b]).dir_id && !crate::text::same_name(
            joined[a].path@,
            joined[b].path@,
        ) by {
            assert(joined[a] == before[a]);
            if b < before.len() {
                assert(joined[b] == before[b]);
            }
        }
    }
}

/// Names that join take nothing away: every other name is there afterwards,
/// but for case, only names of the others are added, and no added name agrees
/// with one before it.
pub proof fn joined_names_are_known_once(names: Seq<String>, others: Seq<String>)
    ensures
        ({
            let joined = crate::catalogue::names_joined(names, others);
            &&& names.len() <= joined.len()
            &&& joined.take(names.len() as int) == names
            &&& forall|k: int|
                names.len() <= k < joined.len() ==> others.contains(#[trigger] joined[k])
            &&& forall|i: int|
                0 <= i < others.len() ==> exists|k: int|
                    0 <= k < joined.len() && crate::text::same_name(
                        (#[trigger] joined[k])@,
                        (#[trigger] others[i])@,
                    )
            &&& forall|a: int, b: int|
                0 <= a < b < joined.len() && names.len() <= b ==> !crate::text::same_name(
                    (#[trigger] joined[a])@,
                    (#[trigger] joined[b])@,
                )
        }),
    decreases others.len(),
{
    let joined = crate::catalogue::names_joined(names, others);
    if others.len() == 0 {
        assert(joined.take(names.len() as int) =~= names);
    } else {
        let shorter = others.drop_last();
        let last = others.last();
        let before = crate::catalogue::names_joined(names, shorter);
        joined_names_are_known_once(names, shorter);
        crate::vfs::lemma_record_index(before, last@);
        assert(joined.take(names.len() as int) =~= before.take(names.len() as int));
        assert forall|k: int| names.len() <= k < joined.len() implies others.contains(
            #[trigger] joined[k],
        ) by {
            if k < before.len() {
                assert(shorter.contains(before[k]));
                let i = choose|i: int| 0 <= i < shorter.len() && shorter[i] == before[k];
                assert(others[i] == joined[k]);
            } else {
                assert(others[others.len() - 1] == joined[k]);
            }
        }
        assert forall|i: int| 0 <= i < others.len() implies exists|k: int|
            0 <= k < joined.len() && crate::text::same_name(
                (#[trigger] joined[k])@,
                (#[trigger] others[i])@,
            ) by {
            if i < shorter.len() {
                assert(shorter[i] == others[i]);
                let k = choose|k: int|
                    0 <= k < before.len() && crate::text::same_name(
                        (#[trigger] before[k])@,
                        shorter[i]@,
                    );
                assert(joined[k] == before[k]);
            } else {
                let k = crate::vfs::record_index(before, last@);
                if k >= 0 {
                    assert(crate::text::same_name(before[k].name(), last@));
                    assert(joined[k] == before[k]);
                } else {
                    assert(joined[before.len() as int] == last);
                }
            }
        }
        assert forall|a: int, b: int|
            0 <= a < b < joined.len() && names.len() <= b implies !crate::text::same_name(
            (#[trigger] joined[a])@,
            (#[trigger] joined[b])@,
        ) by {
            assert(joined[a] == before[a]);
            if b < before.len() {
                assert(joined[b] == before[b]);
            } else {
                assert(!crate::text::same_name(before[a].name(), last@));
            }
        }
    }
}

/// The records that are left of a deletion are those whose names do not agree
/// with the path, and the records that are left outside a folder are those
/// that are neither the folder nor below it.
pub proof fn records_apart_from_a_path_are_left<R: VfsEntry>(
    records: Seq<R>,
    path: Seq<char>,
    record: R,
)
    ensures
        crate::file_catalogue::others(records, path).contains(record) <==> records.contains(record)
            && !crate::text::same_name(record.name(), path),
        crate::file_catalogue::outside(records, path).contains(record) <==> records.contains(record)
            && !crate::text::within(record.name(), path),
{
    let unlike = |r: R| !crate::text::same_name(r.name(), path);
    let outer = |r: R| !crate::text::within(r.name(), path);
    lemma_filter_contains(records, unlike, record);
    lemma_filter_contains(records, outer, record);
}

pub(crate) proof fn lemma_filter_contains<T>(list: Seq<T>, keep: spec_fn(T) -> bool, element: T)
    ensures
        list.filter(keep).contains(element) <==> list.contains(element) && keep(element),
{
    let kept = list.filter(keep);
    if kept.contains(element) {
        let i = choose|i: int| 0 <= i < kept.len() && kept[i] == element;
        list.lemma_filter_pred(keep, i);
        list.lemma_filter_contains_rev(keep, element);
    }
    if list.contains(element) && keep(element) {
        let i = choose|i: int| 0 <= i < list.len() && list[i] == element;
        list.lemma_filter_contains(keep, i);
    }
}

} // verus!
