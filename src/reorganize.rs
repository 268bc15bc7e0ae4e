//! Reorganising an unpacked submission into `deliverables/<student-id>/`, and
//! the cleanup decisions that follow it.

use crate::archive::{archive_type_of_file, archive_type_of_name, ArchiveType};
use crate::error::GraderError;
use crate::student::{
    lacks, sanitized, student_id_of, student_identifier, username_of, first_index, is_kept_char,
};
use vstd::prelude::*;

verus! {

/// Name of the directory that holds one subdirectory per student.
pub const DELIVERABLES: &'static str = "deliverables";

/// What to do with one file found at the top level of the unpacked submission.
pub struct StudentPlan {
    /// The Student Identifier derived from the file's name.
    pub id: String,
    /// Where the student's archive is unpacked, relative to the destination.
    pub target_dir: String,
    /// The file's archive kind; `None` when it is no archive and is skipped.
    pub archive: Option<ArchiveType>,
}

/// The deliverable directory of a student, relative to the destination.
pub open spec fn deliverable_path(id: Seq<char>) -> Seq<char> {
    DELIVERABLES@ + seq!['/'] + id
}

/// `plan` is what the reorganizer does with the top-level file `name`.
pub open spec fn plans_file(plan: StudentPlan, name: Seq<char>) -> bool {
    &&& plan.id@ == student_id_of(name)
    &&& plan.target_dir@ == deliverable_path(student_id_of(name))
    &&& plan.archive == archive_type_of_name(name)
}

/// The deliverable directory of the student `id`, relative to the destination.
pub fn deliverable_dir(id: &str) -> (r: String)
    ensures
        r@ == deliverable_path(id@),
{
    let mut r = String::from_str(DELIVERABLES);
    r.append("/");
    proof {
        reveal_strlit("/");
    }
    r.append(id);
    r
}

/// The plan for one top-level file; `EmptyIdentifier` when no Student
/// Identifier can be derived from its name.
pub fn plan_student(file_name: &str) -> (r: Result<StudentPlan, GraderError>)
    ensures
        student_id_of(file_name@).len() > 0 ==> r is Ok && plans_file(r->Ok_0, file_name@),
        student_id_of(file_name@).len() == 0 ==> r is Err && r->Err_0
            == GraderError::EmptyIdentifier,
{
    let id = match student_identifier(file_name) {
        Ok(id) => id,
        Err(e) => {
            return Err(e);
        },
    };
    let target_dir = deliverable_dir(id.as_str());
    let archive = match archive_type_of_file(file_name) {
        Ok(kind) => Some(kind),
        Err(_) => None,
    };
    Ok(StudentPlan { id, target_dir, archive })
}

/// The plans for a snapshot of the top-level files, in the snapshot's order;
/// `EmptyIdentifier`, before any work is done, when some name yields no
/// Student Identifier.
pub fn plan_reorganization(file_names: &Vec<String>) -> (r: Result<Vec<StudentPlan>, GraderError>)
    ensures
        r is Ok <==> forall|i: int|
            0 <= i < file_names.len() ==> student_id_of(#[trigger] file_names@[i]@).len() > 0,
        r is Err ==> r->Err_0 == GraderError::EmptyIdentifier,
        r is Ok ==> r->Ok_0.len() == file_names.len() && forall|i: int|
            0 <= i < file_names.len() ==> plans_file(#[trigger] r->Ok_0@[i], file_names@[i]@),
{
    let mut plans: Vec<StudentPlan> = Vec::new();
    let mut i: usize = 0;
    while i < file_names.len()
        invariant
            i <= file_names.len(),
            plans.len() == i,
            forall|k: int| 0 <= k < i ==> student_id_of(#[trigger] file_names@[k]@).len() > 0,
            forall|k: int| 0 <= k < i ==> plans_file(#[trigger] plans@[k], file_names@[k]@),
        decreases file_names.len() - i,
    {
        match plan_student(file_names[i].as_str()) {
            Ok(plan) => {
                plans.push(plan);
            },
            Err(e) => {
                return Err(e);
            },
        }
        i = i + 1;
    }
    Ok(plans)
}

/// A Student Identifier derived from a name without `/` holds no `/`, so its
/// deliverable directory is a direct child of `deliverables/`; and two
/// identifiers share a deliverable directory only when they are equal.
pub proof fn lemma_one_directory_per_student(a: Seq<char>, b: Seq<char>)
    requires
        lacks(a, '/'),
    ensures
        lacks(student_id_of(a), '/'),
        deliverable_path(student_id_of(a)) == deliverable_path(student_id_of(b)) <==> student_id_of(
            a,
        ) == student_id_of(b),
{
    lemma_username_within(a);
    lemma_sanitized_within(a);
    let p = DELIVERABLES@ + seq!['/'];
    if deliverable_path(student_id_of(a)) == deliverable_path(student_id_of(b)) {
        assert(student_id_of(a) == deliverable_path(student_id_of(a)).skip(p.len() as int));
        assert(student_id_of(b) == deliverable_path(student_id_of(b)).skip(p.len() as int));
    }
}

/// Every character of the username field occurs in the name.
proof fn lemma_username_within(s: Seq<char>)
    ensures
        forall|j: int|
            0 <= j < username_of(s).len() ==> exists|k: int|
                0 <= k < s.len() && s[k] == #[trigger] username_of(s)[j],
{
    lemma_first_index_bound(s, '_');
    let i = first_index(s, '_');
    if i < s.len() {
        let rest = s.skip(i + 1);
        lemma_first_index_bound(rest, '_');
        assert forall|j: int| 0 <= j < username_of(s).len() implies exists|k: int|
            0 <= k < s.len() && s[k] == #[trigger] username_of(s)[j] by {
            assert(s[i + 1 + j] == username_of(s)[j]);
        }
    }
}

/// `first_index` lies within the sequence.
proof fn lemma_first_index_bound(s: Seq<char>, c: char)
    ensures
        0 <= first_index(s, c) <= s.len(),
    decreases s.len(),
{
    if s.len() > 0 {
        lemma_first_index_bound(s.drop_first(), c);
    }
}

/// The sanitized name holds only kept characters of the name.
proof fn lemma_sanitized_within(s: Seq<char>)
    ensures
        forall|j: int| 0 <= j < sanitized(s).len() ==> is_kept_char(#[trigger] sanitized(s)[j]),
    decreases s.len(),
{
    if s.len() > 0 {
        let t = s.drop_last();
        lemma_sanitized_within(t);
        if is_kept_char(s.last()) {
            assert forall|j: int| 0 <= j < sanitized(s).len() implies is_kept_char(
                #[trigger] sanitized(s)[j],
            ) by {
                if j < sanitized(t).len() {
                    assert(sanitized(s)[j] == sanitized(t)[j]);
                }
            }
        }
    }
}

/// The placeholder feedback written for a student before grading: a greeting
/// and a blank score.
pub fn feedback_stub(id: &str) -> (r: String)
    ensures
        r@ == "Tilbakemelding til "@ + id@ + " (__%)"@,
{
    let mut r = String::from_str("Tilbakemelding til ");
    r.append(id);
    r.append(" (__%)");
    r
}

} // verus!
