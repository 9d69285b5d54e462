use vstd::prelude::*;

use crate::customer::{construct_error, field_error, valid_email, Customer, CustomerView};
use crate::error::{ServiceError, ServiceResult, ValidationError};
use crate::service::{
    bulk_of, create_error, create_post, directory_wf, has_id, ids_unique, index_of, lemma_index_of_unique,
    lemma_max_id_bounds, lookup, next_id, read_result, update_error, CustomerService,
    CustomerUpdate, NewCustomer,
};

verus! {

/// A name outside 2 to 200 characters is refused with `InvalidName`: always by
/// construction (the name is checked first) and so by creation in any directory, and by
/// an entity's update whenever the email is acceptable (the email is checked first there).
pub proof fn lemma_name_length_refused(name: Seq<char>, email: Seq<char>)
    requires
        name.len() < 2 || name.len() > 200,
    ensures
        construct_error(name, email) == Some(ValidationError::InvalidName),
        valid_email(email) ==> field_error(name, email) == Some(ValidationError::InvalidName),
{
}

/// Creating with a name outside 2 to 200 characters fails with `InvalidName` in every
/// directory, whatever the other fields hold; `create_new` then stores nothing.
pub proof fn lemma_create_name_refused(s: Seq<CustomerView>, u: NewCustomer)
    requires
        u.name@.len() < 2 || u.name@.len() > 200,
    ensures
        create_error(s, u) == Some(ServiceError::BadRequest(ValidationError::InvalidName)),
{
}

/// Updating a stored record with a name outside 2 to 200 characters fails with
/// `InvalidName` whenever the email is acceptable; `update_by_id` then leaves the
/// directory as it was.
pub proof fn lemma_directory_update_name_refused(s: Seq<CustomerView>, u: CustomerUpdate)
    requires
        has_id(s, u.id),
        u.name@.len() < 2 || u.name@.len() > 200,
        valid_email(u.email@),
    ensures
        update_error(s, u) == Some(ServiceError::BadRequest(ValidationError::InvalidName)),
{
}

/// A non-empty email without an `@` or without a `.` is refused; the empty email is
/// always accepted.
pub proof fn lemma_email_rule(email: Seq<char>)
    ensures
        email.len() > 0 && (!email.contains('@') || !email.contains('.')) ==> !valid_email(email),
        valid_email(Seq::empty()),
{
}

/// One successful creation: `after` is `before` with `c` appended under the next identifier.
pub open spec fn creation_step(before: Seq<CustomerView>, after: Seq<CustomerView>, c: CustomerView) -> bool {
    next_id(before) == Some(c.id) && after == before.push(c)
}

/// A successful `create_new` is one creation step.
pub proof fn lemma_create_is_step(
    before: Seq<CustomerView>,
    after: Seq<CustomerView>,
    u: NewCustomer,
    r: ServiceResult<Customer>,
)
    requires
        create_post(before, after, u, r),
        r is Ok,
    ensures
        creation_step(before, after, r->Ok_0@),
{
}

/// Creations, however many and in whatever order the lock admits them, give every new
/// record its own identifier: each creation adds one record, the created records' ids
/// strictly increase, and no two stored records share an id.
pub proof fn lemma_creations_distinct(states: Seq<Seq<CustomerView>>, created: Seq<CustomerView>)
    requires
        states.len() == created.len() + 1,
        ids_unique(states[0]),
        forall|k: int|
            0 <= k < created.len() ==> creation_step(
                #[trigger] states[k],
                states[k + 1],
                created[k],
            ),
    ensures
        forall|a: int, b: int| 0 <= a < b < created.len() ==> created[a].id < created[b].id,
        states.last().len() == states[0].len() + created.len(),
        forall|k: int|
            0 <= k < created.len() ==> states.last()[states[0].len() + k] == #[trigger] created[k],
        forall|k: int| 0 <= k < states[0].len() ==> states.last()[k] == #[trigger] states[0][k],
        ids_unique(states.last()),
    decreases created.len(),
{
    let n = created.len() as int;
    if n > 0 {
        let ps = states.drop_last();
        let pc = created.drop_last();
        assert forall|k: int| 0 <= k < pc.len() implies creation_step(
            #[trigger] ps[k],
            ps[k + 1],
            pc[k],
        ) by {
            assert(creation_step(states[k], states[k + 1], created[k]));
        }
        lemma_creations_distinct(ps, pc);
        let prev = states[n - 1];
        let c = created[n - 1];
        assert(creation_step(states[n - 1], states[n], created[n - 1]));
        assert(ps.last() == prev);
        lemma_max_id_bounds(prev);
        assert forall|a: int, b: int| 0 <= a < b < created.len() implies created[a].id
            < created[b].id by {
            if b < n - 1 {
                assert(pc[a] == created[a] && pc[b] == created[b]);
            } else {
                assert(pc[a] == created[a]);
                assert(prev[states[0].len() + a] == created[a]);
            }
        }
        assert forall|k: int| 0 <= k < created.len() implies states.last()[states[0].len() + k]
            == #[trigger] created[k] by {
            if k < n - 1 {
                assert(pc[k] == created[k]);
                assert(prev[states[0].len() + k] == created[k]);
            }
        }
        let last = states.last();
        assert forall|k: int| 0 <= k < states[0].len() implies last[k] == #[trigger] states[0][k] by {
            assert(ps[0] == states[0]);
            assert(prev[k] == states[0][k]);
        }
        assert forall|i: int, j: int|
            0 <= i < last.len() && 0 <= j < last.len() && i != j implies #[trigger] last[i].id
            != #[trigger] last[j].id by {
            if i < prev.len() && j < prev.len() {
                assert(last[i] == prev[i] && last[j] == prev[j]);
            } else if i < prev.len() {
                assert(last[i] == prev[i]);
            } else {
                assert(last[j] == prev[j]);
            }
        }
    }
}

/// Reading a record twice from an unchanged directory gives the same answer, and a
/// record found has the identifier asked for.
pub proof fn lemma_reads_repeatable(
    d: CustomerService,
    id: u32,
    r1: ServiceResult<Customer>,
    r2: ServiceResult<Customer>,
)
    requires
        read_result(r1) == lookup(d@, id),
        read_result(r2) == lookup(d@, id),
    ensures
        read_result(r1) == read_result(r2),
        r1 is Ok ==> r1->Ok_0.id == id,
{
    if r1 is Ok {
        assert(has_id(d@, id));
    }
}

/// A bulk read holds a record exactly when the directory holds it and its identifier
/// was asked for, and, where the directory's identifiers are unique, holds none twice.
pub proof fn lemma_bulk_members(s: Seq<CustomerView>, ids: Seq<u32>)
    ensures
        forall|x: CustomerView|
            #[trigger] bulk_of(s, ids).contains(x) <==> s.contains(x) && ids.contains(x.id),
        ids_unique(s) ==> ids_unique(bulk_of(s, ids)),
    decreases s.len(),
{
    if s.len() > 0 {
        let p = s.drop_last();
        let l = s.last();
        lemma_bulk_members(p, ids);
        let bp = bulk_of(p, ids);
        let b = bulk_of(s, ids);
        assert forall|x: CustomerView| s.contains(x) <==> p.contains(x) || x == l by {
            if s.contains(x) {
                let i = choose|i: int| 0 <= i < s.len() && s[i] == x;
                if i < p.len() {
                    assert(p[i] == x);
                }
            }
            if p.contains(x) {
                let i = choose|i: int| 0 <= i < p.len() && p[i] == x;
                assert(s[i] == x);
            }
            if x == l {
                assert(s[s.len() - 1] == x);
            }
        }
        if ids.contains(l.id) {
            assert forall|x: CustomerView| b.contains(x) <==> bp.contains(x) || x == l by {
                if b.contains(x) {
                    let i = choose|i: int| 0 <= i < b.len() && b[i] == x;
                    if i < bp.len() {
                        assert(bp[i] == x);
                    }
                }
                if bp.contains(x) {
                    let i = choose|i: int| 0 <= i < bp.len() && bp[i] == x;
                    assert(b[i] == x);
                }
                if x == l {
                    assert(b[b.len() - 1] == x);
                }
            }
            if ids_unique(s) {
                assert(ids_unique(p)) by {
                    assert forall|i: int, j: int|
                        0 <= i < p.len() && 0 <= j < p.len() && i != j implies #[trigger] p[i].id
                        != #[trigger] p[j].id by {
                        assert(s[i] == p[i] && s[j] == p[j]);
                    }
                }
                assert forall|i: int, j: int|
                    0 <= i < b.len() && 0 <= j < b.len() && i != j implies #[trigger] b[i].id
                    != #[trigger] b[j].id by {
                    if i < bp.len() && j < bp.len() {
                        assert(b[i] == bp[i] && b[j] == bp[j]);
                    } else if i < bp.len() {
                        assert(bp.contains(bp[i]));
                        lemma_not_last_id(s, bp[i]);
                    } else {
                        assert(bp.contains(bp[j]));
                        lemma_not_last_id(s, bp[j]);
                    }
                }
            }
        } else {
            if ids_unique(s) {
                assert forall|i: int, j: int|
                    0 <= i < p.len() && 0 <= j < p.len() && i != j implies #[trigger] p[i].id
                    != #[trigger] p[j].id by {
                    assert(s[i] == p[i] && s[j] == p[j]);
                }
            }
        }
    }
}

/// With unique identifiers, a record among all but the last has another id than the last.
proof fn lemma_not_last_id(s: Seq<CustomerView>, x: CustomerView)
    requires
        s.len() > 0,
        ids_unique(s),
        s.drop_last().contains(x),
    ensures
        x.id != s.last().id,
{
    let i = choose|i: int| 0 <= i < s.drop_last().len() && s.drop_last()[i] == x;
    assert(s[i] == x);
    assert(s[i].id != s[s.len() - 1].id);
}

/// A bulk read of two stored identifiers and one unknown returns exactly the two
/// records asked for, each once, and leaves the unknown identifier out.
pub proof fn lemma_bulk_omits_unknown(
    s: Seq<CustomerView>,
    ids: Seq<u32>,
    id1: u32,
    id2: u32,
    unknown: u32,
)
    requires
        ids == seq![id1, id2, unknown],
        directory_wf(s),
        has_id(s, id1),
        has_id(s, id2),
        !has_id(s, unknown),
    ensures
        forall|x: CustomerView|
            #[trigger] bulk_of(s, ids).contains(x) <==> (x == lookup(s, id1)->Ok_0 || x == lookup(
                s,
                id2,
            )->Ok_0),
        ids_unique(bulk_of(s, ids)),
{
    lemma_bulk_members(s, ids);
    let i1 = index_of(s, id1);
    let i2 = index_of(s, id2);
    assert(ids.contains(id1) && ids[0] == id1);
    assert(ids[1] == id2 && ids.contains(id2));
    assert forall|x: CustomerView| #[trigger] bulk_of(s, ids).contains(x) <==> (x == lookup(
        s,
        id1,
    )->Ok_0 || x == lookup(s, id2)->Ok_0) by {
        if bulk_of(s, ids).contains(x) {
            let j = choose|j: int| 0 <= j < s.len() && s[j] == x;
            let k = choose|k: int| 0 <= k < ids.len() && ids[k] == x.id;
            if k == 2 {
                assert(has_id(s, unknown));
            } else if k == 0 {
                lemma_index_of_unique(s, id1, j);
            } else {
                lemma_index_of_unique(s, id2, j);
            }
        }
        if x == lookup(s, id1)->Ok_0 {
            assert(s[i1] == x);
            assert(s.contains(x));
        }
        if x == lookup(s, id2)->Ok_0 {
            assert(s[i2] == x);
            assert(s.contains(x));
        }
    }
}

} // verus!
