//! The relational store, modelled as plain rows: a set of user ids and a
//! sequence of todo rows, every todo owned by one user. All operations that
//! touch todos are scoped by the owning user id, which is the only access
//! control there is.

use vstd::prelude::*;
use vstd::seq_lib::group_to_multiset_ensures;
use vstd::string::StringExecFns;

use crate::dto::UpdateTodoPayload;
use crate::text::trim_spec;

verus! {

/// One persisted todo row.
#[derive(Debug)]
pub struct TodoRecord {
    pub id: u128,
    pub user_id: u128,
    pub title: String,
    pub desc: Option<String>,
    pub iscompleted: bool,
    pub created_at: i64,
    pub updated_at: i64,
}

impl Clone for TodoRecord {
    fn clone(&self) -> (r: Self)
        ensures
            r == *self,
    {
        TodoRecord {
            id: self.id,
            user_id: self.user_id,
            title: self.title.clone(),
            desc: clone_opt_string(&self.desc),
            iscompleted: self.iscompleted,
            created_at: self.created_at,
            updated_at: self.updated_at,
        }
    }
}

/// Copy of an optional string, equal to the original.
pub fn clone_opt_string(o: &Option<String>) -> (r: Option<String>)
    ensures
        r == *o,
{
    match o {
        Some(s) => Some(s.clone()),
        None => None,
    }
}

/// The row `rec` after applying the present fields of `ch` and refreshing
/// `updated_at` to `now`. Absent fields keep their prior values.
pub open spec fn apply_update(rec: TodoRecord, ch: UpdateTodoPayload, now: i64) -> TodoRecord {
    TodoRecord {
        id: rec.id,
        user_id: rec.user_id,
        title: if ch.title is Some {
            ch.title->Some_0
        } else {
            rec.title
        },
        desc: if ch.desc is Some {
            Some(ch.desc->Some_0)
        } else {
            rec.desc
        },
        iscompleted: if ch.iscompleted is Some {
            ch.iscompleted->Some_0
        } else {
            rec.iscompleted
        },
        created_at: rec.created_at,
        updated_at: now,
    }
}

/// No two rows share an id.
pub open spec fn todo_ids_unique(s: Seq<TodoRecord>) -> bool {
    forall|i: int, j: int| 0 <= i < j < s.len() ==> s[i].id != s[j].id
}

/// No user id occurs twice.
pub open spec fn user_ids_unique(s: Seq<u128>) -> bool {
    forall|i: int, j: int| 0 <= i < j < s.len() ==> s[i] != s[j]
}

/// Every row's title is non-empty after trimming: the storage layer's
/// check constraint, a second line of defense behind validation.
pub open spec fn titles_trimmed_nonempty(s: Seq<TodoRecord>) -> bool {
    forall|i: int| 0 <= i < s.len() ==> trim_spec(#[trigger] s[i].title@).len() > 0
}

/// One persisted user row.
#[derive(Debug)]
pub struct UserRecord {
    pub id: u128,
    pub email: String,
    pub password_hash: String,
    pub full_name: String,
}

/// The ids of a sequence of user rows, in order.
pub open spec fn user_ids(s: Seq<UserRecord>) -> Seq<u128> {
    s.map_values(|u: UserRecord| u.id)
}

/// Every user row carries the email derived from its id.
pub open spec fn user_emails_derived(s: Seq<UserRecord>) -> bool {
    forall|i: int| 0 <= i < s.len() ==> (#[trigger] s[i].email@) == default_email_spec(s[i].id)
}

/// No two user rows share an email: the unique constraint on emails.
pub open spec fn user_emails_unique(s: Seq<UserRecord>) -> bool {
    forall|i: int, j: int| 0 <= i < j < s.len() ==> s[i].email@ != s[j].email@
}

/// The lowercase hexadecimal digit for a nibble value.
pub open spec fn hex_digit_char(n: int) -> char {
    if n == 0 {
        '0'
    } else if n == 1 {
        '1'
    } else if n == 2 {
        '2'
    } else if n == 3 {
        '3'
    } else if n == 4 {
        '4'
    } else if n == 5 {
        '5'
    } else if n == 6 {
        '6'
    } else if n == 7 {
        '7'
    } else if n == 8 {
        '8'
    } else if n == 9 {
        '9'
    } else if n == 10 {
        'a'
    } else if n == 11 {
        'b'
    } else if n == 12 {
        'c'
    } else if n == 13 {
        'd'
    } else if n == 14 {
        'e'
    } else {
        'f'
    }
}

/// The 32 hex digits of a 128-bit identifier, most significant first.
pub open spec fn hex32(id: u128) -> Seq<char> {
    Seq::new(32, |i: int| hex_digit_char(((id >> (((31 - i) * 4) as u128)) & 0xf) as int))
}

/// The hyphenated form of a 128-bit identifier: its 32 lowercase hex
/// digits with hyphens after the 8th, 12th, 16th and 20th.
pub open spec fn uuid_hyphenated_spec(id: u128) -> Seq<char> {
    hex32(id).subrange(0, 8) + seq!['-'] + hex32(id).subrange(8, 12) + seq!['-'] + hex32(
        id,
    ).subrange(12, 16) + seq!['-'] + hex32(id).subrange(16, 20) + seq!['-'] + hex32(id).subrange(
        20,
        32,
    )
}

/// The deterministic email derived for the default user.
pub open spec fn default_email_spec(id: u128) -> Seq<char> {
    "default-"@ + uuid_hyphenated_spec(id) + "@local.todo"@
}

/// Relies on `uuid::Uuid`'s hyphenated `Display` form: `from_u128` lays
/// the value out big-endian, and the formatter prints each byte as two
/// lowercase hex digits, most significant nibble first, with hyphens
/// after the 8th, 12th, 16th and 20th digit.
#[verifier::external_body]
fn uuid_hyphenated(id: u128) -> (r: String)
    ensures
        r@ == uuid_hyphenated_spec(id),
{
    uuid::Uuid::from_u128(id).hyphenated().to_string()
}

proof fn lemma_hex_digit_char_injective(x: int, y: int)
    requires
        0 <= x < 16,
        0 <= y < 16,
        hex_digit_char(x) == hex_digit_char(y),
    ensures
        x == y,
{
}

proof fn lemma_nibble_bound(x: u128, s: u128)
    ensures
        ((x >> s) & 0xf) < 16,
{
    assert(((x >> s) & 0xf) < 16) by (bit_vector);
}

proof fn lemma_hex32_injective(a: u128, b: u128)
    requires
        hex32(a) == hex32(b),
    ensures
        a == b,
{
    assert(((a >> 124u128) & 0xf) == ((b >> 124u128) & 0xf)) by {
        lemma_nibble_bound(a, 124);
        lemma_nibble_bound(b, 124);
        assert(hex32(a)[0] == hex_digit_char(((a >> 124u128) & 0xf) as int));
        assert(hex32(b)[0] == hex_digit_char(((b >> 124u128) & 0xf) as int));
        assert(hex32(a)[0] == hex32(b)[0]);
        lemma_hex_digit_char_injective(
            ((a >> 124u128) & 0xf) as int,
            ((b >> 124u128) & 0xf) as int,
        );
    }
    assert(((a >> 120u128) & 0xf) == ((b >> 120u128) & 0xf)) by {
        lemma_nibble_bound(a, 120);
        lemma_nibble_bound(b, 120);
        assert(hex32(a)[1] == hex_digit_char(((a >> 120u128) & 0xf) as int));
        assert(hex32(b)[1] == hex_digit_char(((b >> 120u128) & 0xf) as int));
        assert(hex32(a)[1] == hex32(b)[1]);
        lemma_hex_digit_char_injective(
            ((a >> 120u128) & 0xf) as int,
            ((b >> 120u128) & 0xf) as int,
        );
    }
    assert(((a >> 116u128) & 0xf) == ((b >> 116u128) & 0xf)) by {
        lemma_nibble_bound(a, 116);
        lemma_nibble_bound(b, 116);
        assert(hex32(a)[2] == hex_digit_char(((a >> 116u128) & 0xf) as int));
        assert(hex32(b)[2] == hex_digit_char(((b >> 116u128) & 0xf) as int));
        assert(hex32(a)[2] == hex32(b)[2]);
        lemma_hex_digit_char_injective(
            ((a >> 116u128) & 0xf) as int,
            ((b >> 116u128) & 0xf) as int,
        );
    }
    assert(((a >> 112u128) & 0xf) == ((b >> 112u128) & 0xf)) by {
        lemma_nibble_bound(a, 112);
        lemma_nibble_bound(b, 112);
        assert(hex32(a)[3] == hex_digit_char(((a >> 112u128) & 0xf) as int));
        assert(hex32(b)[3] == hex_digit_char(((b >> 112u128) & 0xf) as int));
        assert(hex32(a)[3] == hex32(b)[3]);
        lemma_hex_digit_char_injective(
            ((a >> 112u128) & 0xf) as int,
            ((b >> 112u128) & 0xf) as int,
        );
    }
    assert(((a >> 108u128) & 0xf) == ((b >> 108u128) & 0xf)) by {
        lemma_nibble_bound(a, 108);
        lemma_nibble_bound(b, 108);
        assert(hex32(a)[4] == hex_digit_char(((a >> 108u128) & 0xf) as int));
        assert(hex32(b)[4] == hex_digit_char(((b >> 108u128) & 0xf) as int));
        assert(hex32(a)[4] == hex32(b)[4]);
        lemma_hex_digit_char_injective(
            ((a >> 108u128) & 0xf) as int,
            ((b >> 108u128) & 0xf) as int,
        );
    }
    assert(((a >> 104u128) & 0xf) == ((b >> 104u128) & 0xf)) by {
        lemma_nibble_bound(a, 104);
        lemma_nibble_bound(b, 104);
        assert(hex32(a)[5] == hex_digit_char(((a >> 104u128) & 0xf) as int));
        assert(hex32(b)[5] == hex_digit_char(((b >> 104u128) & 0xf) as int));
        assert(hex32(a)[5] == hex32(b)[5]);
        lemma_hex_digit_char_injective(
            ((a >> 104u128) & 0xf) as int,
            ((b >> 104u128) & 0xf) as int,
        );
    }
    assert(((a >> 100u128) & 0xf) == ((b >> 100u128) & 0xf)) by {
        lemma_nibble_bound(a, 100);
        lemma_nibble_bound(b, 100);
        assert(hex32(a)[6] == hex_digit_char(((a >> 100u128) & 0xf) as int));
        assert(hex32(b)[6] == hex_digit_char(((b >> 100u128) & 0xf) as int));
        assert(hex32(a)[6] == hex32(b)[6]);
        lemma_hex_digit_char_injective(
            ((a >> 100u128) & 0xf) as int,
            ((b >> 100u128) & 0xf) as int,
        );
    }
    assert(((a >> 96u128) & 0xf) == ((b >> 96u128) & 0xf)) by {
        lemma_nibble_bound(a, 96);
        lemma_nibble_bound(b, 96);
        assert(hex32(a)[7] == hex_digit_char(((a >> 96u128) & 0xf) as int));
        assert(hex32(b)[7] == hex_digit_char(((b >> 96u128) & 0xf) as int));
        assert(hex32(a)[7] == hex32(b)[7]);
        lemma_hex_digit_char_injective(
            ((a >> 96u128) & 0xf) as int,
            ((b >> 96u128) & 0xf) as int,
        );
    }
    assert(((a >> 92u128) & 0xf) == ((b >> 92u128) & 0xf)) by {
        lemma_nibble_bound(a, 92);
        lemma_nibble_bound(b, 92);
        assert(hex32(a)[8] == hex_digit_char(((a >> 92u128) & 0xf) as int));
        assert(hex32(b)[8] == hex_digit_char(((b >> 92u128) & 0xf) as int));
        assert(hex32(a)[8] == hex32(b)[8]);
        lemma_hex_digit_char_injective(
            ((a >> 92u128) & 0xf) as int,
            ((b >> 92u128) & 0xf) as int,
        );
    }
    assert(((a >> 88u128) & 0xf) == ((b >> 88u128) & 0xf)) by {
        lemma_nibble_bound(a, 88);
        lemma_nibble_bound(b, 88);
        assert(hex32(a)[9] == hex_digit_char(((a >> 88u128) & 0xf) as int));
        assert(hex32(b)[9] == hex_digit_char(((b >> 88u128) & 0xf) as int));
        assert(hex32(a)[9] == hex32(b)[9]);
        lemma_hex_digit_char_injective(
            ((a >> 88u128) & 0xf) as int,
            ((b >> 88u128) & 0xf) as int,
        );
    }
    assert(((a >> 84u128) & 0xf) == ((b >> 84u128) & 0xf)) by {
        lemma_nibble_bound(a, 84);
        lemma_nibble_bound(b, 84);
        assert(hex32(a)[10] == hex_digit_char(((a >> 84u128) & 0xf) as int));
        assert(hex32(b)[10] == hex_digit_char(((b >> 84u128) & 0xf) as int));
        assert(hex32(a)[10] == hex32(b)[10]);
        lemma_hex_digit_char_injective(
            ((a >> 84u128) & 0xf) as int,
            ((b >> 84u128) & 0xf) as int,
        );
    }
    assert(((a >> 80u128) & 0xf) == ((b >> 80u128) & 0xf)) by {
        lemma_nibble_bound(a, 80);
        lemma_nibble_bound(b, 80);
        assert(hex32(a)[11] == hex_digit_char(((a >> 80u128) & 0xf) as int));
        assert(hex32(b)[11] == hex_digit_char(((b >> 80u128) & 0xf) as int));
        assert(hex32(a)[11] == hex32(b)[11]);
        lemma_hex_digit_char_injective(
            ((a >> 80u128) & 0xf) as int,
            ((b >> 80u128) & 0xf) as int,
        );
    }
    assert(((a >> 76u128) & 0xf) == ((b >> 76u128) & 0xf)) by {
        lemma_nibble_bound(a, 76);
        lemma_nibble_bound(b, 76);
        assert(hex32(a)[12] == hex_digit_char(((a >> 76u128) & 0xf) as int));
        assert(hex32(b)[12] == hex_digit_char(((b >> 76u128) & 0xf) as int));
        assert(hex32(a)[12] == hex32(b)[12]);
        lemma_hex_digit_char_injective(
            ((a >> 76u128) & 0xf) as int,
            ((b >> 76u128) & 0xf) as int,
        );
    }
    assert(((a >> 72u128) & 0xf) == ((b >> 72u128) & 0xf)) by {
        lemma_nibble_bound(a, 72);
        lemma_nibble_bound(b, 72);
        assert(hex32(a)[13] == hex_digit_char(((a >> 72u128) & 0xf) as int));
        assert(hex32(b)[13] == hex_digit_char(((b >> 72u128) & 0xf) as int));
        assert(hex32(a)[13] == hex32(b)[13]);
        lemma_hex_digit_char_injective(
            ((a >> 72u128) & 0xf) as int,
            ((b >> 72u128) & 0xf) as int,
        );
    }
    assert(((a >> 68u128) & 0xf) == ((b >> 68u128) & 0xf)) by {
        lemma_nibble_bound(a, 68);
        lemma_nibble_bound(b, 68);
        assert(hex32(a)[14] == hex_digit_char(((a >> 68u128) & 0xf) as int));
        assert(hex32(b)[14] == hex_digit_char(((b >> 68u128) & 0xf) as int));
        assert(hex32(a)[14] == hex32(b)[14]);
        lemma_hex_digit_char_injective(
            ((a >> 68u128) & 0xf) as int,
            ((b >> 68u128) & 0xf) as int,
        );
    }
    assert(((a >> 64u128) & 0xf) == ((b >> 64u128) & 0xf)) by {
        lemma_nibble_bound(a, 64);
        lemma_nibble_bound(b, 64);
        assert(hex32(a)[15] == hex_digit_char(((a >> 64u128) & 0xf) as int));
        assert(hex32(b)[15] == hex_digit_char(((b >> 64u128) & 0xf) as int));
        assert(hex32(a)[15] == hex32(b)[15]);
        lemma_hex_digit_char_injective(
            ((a >> 64u128) & 0xf) as int,
            ((b >> 64u128) & 0xf) as int,
        );
    }
    assert(((a >> 60u128) & 0xf) == ((b >> 60u128) & 0xf)) by {
        lemma_nibble_bound(a, 60);
        lemma_nibble_bound(b, 60);
        assert(hex32(a)[16] == hex_digit_char(((a >> 60u128) & 0xf) as int));
        assert(hex32(b)[16] == hex_digit_char(((b >> 60u128) & 0xf) as int));
        assert(hex32(a)[16] == hex32(b)[16]);
        lemma_hex_digit_char_injective(
            ((a >> 60u128) & 0xf) as int,
            ((b >> 60u128) & 0xf) as int,
        );
    }
    assert(((a >> 56u128) & 0xf) == ((b >> 56u128) & 0xf)) by {
        lemma_nibble_bound(a, 56);
        lemma_nibble_bound(b, 56);
        assert(hex32(a)[17] == hex_digit_char(((a >> 56u128) & 0xf) as int));
        assert(hex32(b)[17] == hex_digit_char(((b >> 56u128) & 0xf) as int));
        assert(hex32(a)[17] == hex32(b)[17]);
        lemma_hex_digit_char_injective(
            ((a >> 56u128) & 0xf) as int,
            ((b >> 56u128) & 0xf) as int,
        );
    }
    assert(((a >> 52u128) & 0xf) == ((b >> 52u128) & 0xf)) by {
        lemma_nibble_bound(a, 52);
        lemma_nibble_bound(b, 52);
        assert(hex32(a)[18] == hex_digit_char(((a >> 52u128) & 0xf) as int));
        assert(hex32(b)[18] == hex_digit_char(((b >> 52u128) & 0xf) as int));
        assert(hex32(a)[18] == hex32(b)[18]);
        lemma_hex_digit_char_injective(
            ((a >> 52u128) & 0xf) as int,
            ((b >> 52u128) & 0xf) as int,
        );
    }
    assert(((a >> 48u128) & 0xf) == ((b >> 48u128) & 0xf)) by {
        lemma_nibble_bound(a, 48);
        lemma_nibble_bound(b, 48);
        assert(hex32(a)[19] == hex_digit_char(((a >> 48u128) & 0xf) as int));
        assert(hex32(b)[19] == hex_digit_char(((b >> 48u128) & 0xf) as int));
        assert(hex32(a)[19] == hex32(b)[19]);
        lemma_hex_digit_char_injective(
            ((a >> 48u128) & 0xf) as int,
            ((b >> 48u128) & 0xf) as int,
        );
    }
    assert(((a >> 44u128) & 0xf) == ((b >> 44u128) & 0xf)) by {
        lemma_nibble_bound(a, 44);
        lemma_nibble_bound(b, 44);
        assert(hex32(a)[20] == hex_digit_char(((a >> 44u128) & 0xf) as int));
        assert(hex32(b)[20] == hex_digit_char(((b >> 44u128) & 0xf) as int));
        assert(hex32(a)[20] == hex32(b)[20]);
        lemma_hex_digit_char_injective(
            ((a >> 44u128) & 0xf) as int,
            ((b >> 44u128) & 0xf) as int,
        );
    }
    assert(((a >> 40u128) & 0xf) == ((b >> 40u128) & 0xf)) by {
        lemma_nibble_bound(a, 40);
        lemma_nibble_bound(b, 40);
        assert(hex32(a)[21] == hex_digit_char(((a >> 40u128) & 0xf) as int));
        assert(hex32(b)[21] == hex_digit_char(((b >> 40u128) & 0xf) as int));
        assert(hex32(a)[21] == hex32(b)[21]);
        lemma_hex_digit_char_injective(
            ((a >> 40u128) & 0xf) as int,
            ((b >> 40u128) & 0xf) as int,
        );
    }
    assert(((a >> 36u128) & 0xf) == ((b >> 36u128) & 0xf)) by {
        lemma_nibble_bound(a, 36);
        lemma_nibble_bound(b, 36);
        assert(hex32(a)[22] == hex_digit_char(((a >> 36u128) & 0xf) as int));
        assert(hex32(b)[22] == hex_digit_char(((b >> 36u128) & 0xf) as int));
        assert(hex32(a)[22] == hex32(b)[22]);
        lemma_hex_digit_char_injective(
            ((a >> 36u128) & 0xf) as int,
            ((b >> 36u128) & 0xf) as int,
        );
    }
    assert(((a >> 32u128) & 0xf) == ((b >> 32u128) & 0xf)) by {
        lemma_nibble_bound(a, 32);
        lemma_nibble_bound(b, 32);
        assert(hex32(a)[23] == hex_digit_char(((a >> 32u128) & 0xf) as int));
        assert(hex32(b)[23] == hex_digit_char(((b >> 32u128) & 0xf) as int));
        assert(hex32(a)[23] == hex32(b)[23]);
        lemma_hex_digit_char_injective(
            ((a >> 32u128) & 0xf) as int,
            ((b >> 32u128) & 0xf) as int,
        );
    }
    assert(((a >> 28u128) & 0xf) == ((b >> 28u128) & 0xf)) by {
        lemma_nibble_bound(a, 28);
        lemma_nibble_bound(b, 28);
        assert(hex32(a)[24] == hex_digit_char(((a >> 28u128) & 0xf) as int));
        assert(hex32(b)[24] == hex_digit_char(((b >> 28u128) & 0xf) as int));
        assert(hex32(a)[24] == hex32(b)[24]);
        lemma_hex_digit_char_injective(
            ((a >> 28u128) & 0xf) as int,
            ((b >> 28u128) & 0xf) as int,
        );
    }
    assert(((a >> 24u128) & 0xf) == ((b >> 24u128) & 0xf)) by {
        lemma_nibble_bound(a, 24);
        lemma_nibble_bound(b, 24);
        assert(hex32(a)[25] == hex_digit_char(((a >> 24u128) & 0xf) as int));
        assert(hex32(b)[25] == hex_digit_char(((b >> 24u128) & 0xf) as int));
        assert(hex32(a)[25] == hex32(b)[25]);
        lemma_hex_digit_char_injective(
            ((a >> 24u128) & 0xf) as int,
            ((b >> 24u128) & 0xf) as int,
        );
    }
    assert(((a >> 20u128) & 0xf) == ((b >> 20u128) & 0xf)) by {
        lemma_nibble_bound(a, 20);
        lemma_nibble_bound(b, 20);
        assert(hex32(a)[26] == hex_digit_char(((a >> 20u128) & 0xf) as int));
        assert(hex32(b)[26] == hex_digit_char(((b >> 20u128) & 0xf) as int));
        assert(hex32(a)[26] == hex32(b)[26]);
        lemma_hex_digit_char_injective(
            ((a >> 20u128) & 0xf) as int,
            ((b >> 20u128) & 0xf) as int,
        );
    }
    assert(((a >> 16u128) & 0xf) == ((b >> 16u128) & 0xf)) by {
        lemma_nibble_bound(a, 16);
        lemma_nibble_bound(b, 16);
        assert(hex32(a)[27] == hex_digit_char(((a >> 16u128) & 0xf) as int));
        assert(hex32(b)[27] == hex_digit_char(((b >> 16u128) & 0xf) as int));
        assert(hex32(a)[27] == hex32(b)[27]);
        lemma_hex_digit_char_injective(
            ((a >> 16u128) & 0xf) as int,
            ((b >> 16u128) & 0xf) as int,
        );
    }
    assert(((a >> 12u128) & 0xf) == ((b >> 12u128) & 0xf)) by {
        lemma_nibble_bound(a, 12);
        lemma_nibble_bound(b, 12);
        assert(hex32(a)[28] == hex_digit_char(((a >> 12u128) & 0xf) as int));
        assert(hex32(b)[28] == hex_digit_char(((b >> 12u128) & 0xf) as int));
        assert(hex32(a)[28] == hex32(b)[28]);
        lemma_hex_digit_char_injective(
            ((a >> 12u128) & 0xf) as int,
            ((b >> 12u128) & 0xf) as int,
        );
    }
    assert(((a >> 8u128) & 0xf) == ((b >> 8u128) & 0xf)) by {
        lemma_nibble_bound(a, 8);
        lemma_nibble_bound(b, 8);
        assert(hex32(a)[29] == hex_digit_char(((a >> 8u128) & 0xf) as int));
        assert(hex32(b)[29] == hex_digit_char(((b >> 8u128) & 0xf) as int));
        assert(hex32(a)[29] == hex32(b)[29]);
        lemma_hex_digit_char_injective(
            ((a >> 8u128) & 0xf) as int,
            ((b >> 8u128) & 0xf) as int,
        );
    }
    assert(((a >> 4u128) & 0xf) == ((b >> 4u128) & 0xf)) by {
        lemma_nibble_bound(a, 4);
        lemma_nibble_bound(b, 4);
        assert(hex32(a)[30] == hex_digit_char(((a >> 4u128) & 0xf) as int));
        assert(hex32(b)[30] == hex_digit_char(((b >> 4u128) & 0xf) as int));
        assert(hex32(a)[30] == hex32(b)[30]);
        lemma_hex_digit_char_injective(
            ((a >> 4u128) & 0xf) as int,
            ((b >> 4u128) & 0xf) as int,
        );
    }
    assert(((a >> 0u128) & 0xf) == ((b >> 0u128) & 0xf)) by {
        lemma_nibble_bound(a, 0);
        lemma_nibble_bound(b, 0);
        assert(hex32(a)[31] == hex_digit_char(((a >> 0u128) & 0xf) as int));
        assert(hex32(b)[31] == hex_digit_char(((b >> 0u128) & 0xf) as int));
        assert(hex32(a)[31] == hex32(b)[31]);
        lemma_hex_digit_char_injective(
            ((a >> 0u128) & 0xf) as int,
            ((b >> 0u128) & 0xf) as int,
        );
    }
    assert(a == b) by (bit_vector)
        requires
            ((a >> 124u128) & 0xf) == ((b >> 124u128) & 0xf),
            ((a >> 120u128) & 0xf) == ((b >> 120u128) & 0xf),
            ((a >> 116u128) & 0xf) == ((b >> 116u128) & 0xf),
            ((a >> 112u128) & 0xf) == ((b >> 112u128) & 0xf),
            ((a >> 108u128) & 0xf) == ((b >> 108u128) & 0xf),
            ((a >> 104u128) & 0xf) == ((b >> 104u128) & 0xf),
            ((a >> 100u128) & 0xf) == ((b >> 100u128) & 0xf),
            ((a >> 96u128) & 0xf) == ((b >> 96u128) & 0xf),
            ((a >> 92u128) & 0xf) == ((b >> 92u128) & 0xf),
            ((a >> 88u128) & 0xf) == ((b >> 88u128) & 0xf),
            ((a >> 84u128) & 0xf) == ((b >> 84u128) & 0xf),
            ((a >> 80u128) & 0xf) == ((b >> 80u128) & 0xf),
            ((a >> 76u128) & 0xf) == ((b >> 76u128) & 0xf),
            ((a >> 72u128) & 0xf) == ((b >> 72u128) & 0xf),
            ((a >> 68u128) & 0xf) == ((b >> 68u128) & 0xf),
            ((a >> 64u128) & 0xf) == ((b >> 64u128) & 0xf),
            ((a >> 60u128) & 0xf) == ((b >> 60u128) & 0xf),
            ((a >> 56u128) & 0xf) == ((b >> 56u128) & 0xf),
            ((a >> 52u128) & 0xf) == ((b >> 52u128) & 0xf),
            ((a >> 48u128) & 0xf) == ((b >> 48u128) & 0xf),
            ((a >> 44u128) & 0xf) == ((b >> 44u128) & 0xf),
            ((a >> 40u128) & 0xf) == ((b >> 40u128) & 0xf),
            ((a >> 36u128) & 0xf) == ((b >> 36u128) & 0xf),
            ((a >> 32u128) & 0xf) == ((b >> 32u128) & 0xf),
            ((a >> 28u128) & 0xf) == ((b >> 28u128) & 0xf),
            ((a >> 24u128) & 0xf) == ((b >> 24u128) & 0xf),
            ((a >> 20u128) & 0xf) == ((b >> 20u128) & 0xf),
            ((a >> 16u128) & 0xf) == ((b >> 16u128) & 0xf),
            ((a >> 12u128) & 0xf) == ((b >> 12u128) & 0xf),
            ((a >> 8u128) & 0xf) == ((b >> 8u128) & 0xf),
            ((a >> 4u128) & 0xf) == ((b >> 4u128) & 0xf),
            ((a >> 0u128) & 0xf) == ((b >> 0u128) & 0xf),
    ;
}


proof fn lemma_uuid_hyphenated_injective(a: u128, b: u128)
    requires
        uuid_hyphenated_spec(a) == uuid_hyphenated_spec(b),
    ensures
        a == b,
{
    assert forall|k: int| 0 <= k < 32 implies hex32(a)[k] == hex32(b)[k] by {
        let p: int = if k < 8 {
            k
        } else if k < 12 {
            k + 1
        } else if k < 16 {
            k + 2
        } else if k < 20 {
            k + 3
        } else {
            k + 4
        };
        assert(uuid_hyphenated_spec(a)[p] == hex32(a)[k]);
        assert(uuid_hyphenated_spec(b)[p] == hex32(b)[k]);
    }
    assert(hex32(a) =~= hex32(b));
    lemma_hex32_injective(a, b);
}

proof fn lemma_default_email_injective(a: u128, b: u128)
    requires
        default_email_spec(a) == default_email_spec(b),
    ensures
        a == b,
{
    reveal_strlit("default-");
    reveal_strlit("@local.todo");
    assert(uuid_hyphenated_spec(a).len() == 36);
    assert(uuid_hyphenated_spec(b).len() == 36);
    assert forall|k: int|
        0 <= k < 36 implies uuid_hyphenated_spec(a)[k] == uuid_hyphenated_spec(b)[k] by {
        assert(default_email_spec(a)[8 + k] == uuid_hyphenated_spec(a)[k]);
        assert(default_email_spec(b)[8 + k] == uuid_hyphenated_spec(b)[k]);
    }
    assert(uuid_hyphenated_spec(a) =~= uuid_hyphenated_spec(b));
    lemma_uuid_hyphenated_injective(a, b);
}

/// Rows ordered by creation time, most recent first.
pub open spec fn sorted_by_created_desc(s: Seq<TodoRecord>) -> bool {
    forall|i: int, j: int| 0 <= i < j < s.len() ==> s[i].created_at >= s[j].created_at
}

/// The users that `users` holds after an idempotent insert of `uid`.
pub open spec fn ensure_user_spec(users: Seq<u128>, uid: u128) -> Seq<u128> {
    if users.contains(uid) {
        users
    } else {
        users.push(uid)
    }
}

/// The in-memory model of the relational store.
pub struct TodoStore {
    pub todos: Vec<TodoRecord>,
    pub users: Vec<UserRecord>,
}

impl TodoStore {
    /// Row ids and user ids are unique (the primary-key constraints),
    /// every stored title is non-empty after trimming (the check
    /// constraint), and user emails are derived from their ids and
    /// globally unique (the unique constraint on emails).
    pub open spec fn wf(self) -> bool {
        todo_ids_unique(self.todos@) && user_ids_unique(user_ids(self.users@))
            && titles_trimmed_nonempty(self.todos@) && user_emails_derived(self.users@)
            && user_emails_unique(self.users@)
    }

    /// Whether some row has id `tid`, whoever owns it.
    pub open spec fn has_todo_id(self, tid: u128) -> bool {
        exists|i: int| 0 <= i < self.todos@.len() && self.todos@[i].id == tid
    }

    /// Whether user `uid` owns a row with id `tid`.
    pub open spec fn has_todo(self, uid: u128, tid: u128) -> bool {
        exists|i: int|
            0 <= i < self.todos@.len() && self.todos@[i].id == tid && self.todos@[i].user_id == uid
    }

    /// The rows owned by `uid`, in insertion order.
    pub open spec fn todos_of(self, uid: u128) -> Seq<TodoRecord> {
        self.todos@.filter(|t: TodoRecord| t.user_id == uid)
    }

    /// An empty store.
    pub fn new() -> (r: TodoStore)
        ensures
            r.wf(),
            r.todos@ == Seq::<TodoRecord>::empty(),
            r.users@ == Seq::<UserRecord>::empty(),
    {
        TodoStore { todos: Vec::new(), users: Vec::new() }
    }

    /// Insert a user row if the id is absent — with the deterministic
    /// derived email, a placeholder password hash and the fixed full
    /// name — and do nothing, not even report an error, if a row with
    /// that id is already there.
    pub fn ensure_default_user(&mut self, user_id: u128)
        requires
            old(self).wf(),
        ensures
            final(self).wf(),
            final(self).todos == old(self).todos,
            user_ids(final(self).users@) == ensure_user_spec(
                user_ids(old(self).users@),
                user_id,
            ),
            user_ids(final(self).users@).contains(user_id),
            user_ids(old(self).users@).contains(user_id) ==> final(self).users == old(self).users,
            !user_ids(old(self).users@).contains(user_id) ==> {
                &&& final(self).users@.len() == old(self).users@.len() + 1
                &&& final(self).users@.subrange(0, old(self).users@.len() as int) == old(
                    self,
                ).users@
                &&& final(self).users@.last().id == user_id
                &&& final(self).users@.last().email@ == default_email_spec(user_id)
                &&& final(self).users@.last().password_hash@ == "no-auth-yet"@
                &&& final(self).users@.last().full_name@ == "Default User"@
            },
    {
        let n = self.users.len();
        let mut i: usize = 0;
        while i < n
            invariant
                0 <= i <= n,
                n == self.users@.len(),
                *self == *old(self),
                old(self).wf(),
                forall|k: int| 0 <= k < i ==> self.users@[k].id != user_id,
            decreases n - i,
        {
            if self.users[i].id == user_id {
                assert(user_ids(self.users@).contains(user_id)) by {
                    assert(user_ids(self.users@)[i as int] == user_id);
                }
                return ;
            }
            i = i + 1;
        }
        assert(!user_ids(self.users@).contains(user_id)) by {
            assert(forall|k: int|
                0 <= k < self.users@.len() ==> user_ids(self.users@)[k] == #[trigger] self.users@[k].id);
        }
        let uuid_text = uuid_hyphenated(user_id);
        let mut email = String::from_str("default-");
        email.append(uuid_text.as_str());
        email.append("@local.todo");
        let row = UserRecord {
            id: user_id,
            email,
            password_hash: String::from_str("no-auth-yet"),
            full_name: String::from_str("Default User"),
        };
        self.users.push(row);
        proof {
            let prev = old(self).users@;
            assert(user_ids(self.users@) =~= user_ids(prev).push(user_id));
            assert(user_ids(self.users@).contains(user_id)) by {
                assert(user_ids(self.users@)[prev.len() as int] == user_id);
            }
            assert(self.users@.subrange(0, prev.len() as int) =~= prev);
            assert(self.users@.last().email@ == default_email_spec(user_id));
            assert(user_emails_derived(self.users@)) by {
                assert(forall|k: int| 0 <= k < prev.len() ==> self.users@[k] == #[trigger] prev[k]);
            }
            assert(user_emails_unique(self.users@)) by {
                assert forall|p: int, q: int|
                    0 <= p < q < self.users@.len() implies self.users@[p].email@
                    != self.users@[q].email@ by {
                    assert(self.users@[p] == prev[p]);
                    if q < prev.len() {
                        assert(self.users@[q] == prev[q]);
                    } else {
                        assert(self.users@[q].email@ == default_email_spec(user_id));
                        assert(prev[p].email@ == default_email_spec(prev[p].id));
                        assert(prev[p].id != user_id);
                        if self.users@[p].email@ == self.users@[q].email@ {
                            lemma_default_email_injective(prev[p].id, user_id);
                        }
                    }
                }
            }
        }
    }

    /// First index of the row with id `tid`, if any.
    fn index_of_id(&self, tid: u128) -> (r: Option<usize>)
        ensures
            match r {
                Some(i) => i < self.todos@.len() && self.todos@[i as int].id == tid,
                None => !self.has_todo_id(tid),
            },
    {
        let n = self.todos.len();
        let mut i: usize = 0;
        while i < n
            invariant
                0 <= i <= n,
                n == self.todos@.len(),
                forall|k: int| 0 <= k < i ==> self.todos@[k].id != tid,
            decreases n - i,
        {
            if self.todos[i].id == tid {
                return Some(i);
            }
            i = i + 1;
        }
        None
    }

    /// Insert a new todo row. Returns the persisted row, or `None` when a
    /// row with the same id already exists (the primary-key constraint).
    pub fn create_todo(
        &mut self,
        user_id: u128,
        title: String,
        desc: Option<String>,
        id: u128,
        now: i64,
    ) -> (r: Option<TodoRecord>)
        requires
            old(self).wf(),
            trim_spec(title@).len() > 0,
        ensures
            final(self).wf(),
            final(self).users == old(self).users,
            match r {
                Some(rec) => !old(self).has_todo_id(id) && rec == (TodoRecord {
                    id,
                    user_id,
                    title,
                    desc,
                    iscompleted: false,
                    created_at: now,
                    updated_at: now,
                }) && final(self).todos@ == old(self).todos@.push(rec),
                None => old(self).has_todo_id(id) && *final(self) == *old(self),
            },
    {
        match self.index_of_id(id) {
            Some(_) => None,
            None => {
                let rec = TodoRecord {
                    id,
                    user_id,
                    title,
                    desc,
                    iscompleted: false,
                    created_at: now,
                    updated_at: now,
                };
                let stored = rec.clone();
                self.todos.push(stored);
                assert(todo_ids_unique(self.todos@) && titles_trimmed_nonempty(self.todos@)) by {
                    assert(forall|k: int|
                        0 <= k < old(self).todos@.len() ==> self.todos@[k] == old(self).todos@[k]);
                }
                Some(rec)
            },
        }
    }

    /// The row with id `tid` owned by `uid`, or `None`; never an error.
    pub fn find_todo_by_id(&self, user_id: u128, todo_id: u128) -> (r: Option<TodoRecord>)
        requires
            self.wf(),
        ensures
            match r {
                Some(rec) => rec.id == todo_id && rec.user_id == user_id && self.todos@.contains(
                    rec,
                ),
                None => !self.has_todo(user_id, todo_id),
            },
            r is Some <==> self.has_todo(user_id, todo_id),
    {
        match self.index_of_id(todo_id) {
            Some(i) => {
                if self.todos[i].user_id == user_id {
                    let rec = self.todos[i].clone();
                    assert(self.todos@.contains(rec)) by {
                        assert(self.todos@[i as int] == rec);
                    }
                    Some(rec)
                } else {
                    assert(!self.has_todo(user_id, todo_id)) by {
                        assert(forall|k: int|
                            0 <= k < self.todos@.len() && self.todos@[k].id == todo_id ==> k == i
                                as int);
                    }
                    None
                }
            },
            None => None,
        }
    }

    /// Apply partial changes to the row with id `todo_id`: only the present
    /// fields change, and `updated_at` is refreshed to `now`. Returns the
    /// updated row, or `None` when no row has that id.
    pub fn update_todo(&mut self, todo_id: u128, changes: &UpdateTodoPayload, now: i64) -> (r: Option<
        TodoRecord,
    >)
        requires
            old(self).wf(),
            changes.title is Some ==> trim_spec(changes.title->0@).len() > 0,
        ensures
            final(self).wf(),
            final(self).users == old(self).users,
            match r {
                Some(rec) => exists|i: int|
                    0 <= i < old(self).todos@.len() && #[trigger] old(self).todos@[i].id == todo_id
                        && rec == apply_update(old(self).todos@[i], *changes, now)
                        && final(self).todos@ == old(self).todos@.update(i, rec),
                None => !old(self).has_todo_id(todo_id) && *final(self) == *old(self),
            },
    {
        match self.index_of_id(todo_id) {
            Some(i) => {
                let rec = TodoRecord {
                    id: self.todos[i].id,
                    user_id: self.todos[i].user_id,
                    title: match &changes.title {
                        Some(t) => t.clone(),
                        None => self.todos[i].title.clone(),
                    },
                    desc: match &changes.desc {
                        Some(d) => Some(d.clone()),
                        None => clone_opt_string(&self.todos[i].desc),
                    },
                    iscompleted: match &changes.iscompleted {
                        Some(c) => *c,
                        None => self.todos[i].iscompleted,
                    },
                    created_at: self.todos[i].created_at,
                    updated_at: now,
                };
                assert(rec == apply_update(old(self).todos@[i as int], *changes, now));
                let stored = rec.clone();
                let _ = self.todos.remove(i);
                self.todos.insert(i, stored);
                assert(self.todos@ =~= old(self).todos@.update(i as int, rec));
                assert(todo_ids_unique(self.todos@)) by {
                    assert(forall|k: int|
                        0 <= k < self.todos@.len() ==> self.todos@[k].id
                            == old(self).todos@[k].id);
                }
                assert(titles_trimmed_nonempty(self.todos@)) by {
                    assert(forall|k: int|
                        0 <= k < self.todos@.len() && k != i as int ==> self.todos@[k] == old(
                            self,
                        ).todos@[k]);
                }
                Some(rec)
            },
            None => None,
        }
    }

    /// Delete the row matching both `user_id` and `todo_id`. Returns whether
    /// a row was actually removed; `false` means "not found", not an error.
    pub fn delete_todo(&mut self, user_id: u128, todo_id: u128) -> (r: bool)
        requires
            old(self).wf(),
        ensures
            final(self).wf(),
            final(self).users == old(self).users,
            r == old(self).has_todo(user_id, todo_id),
            r ==> exists|i: int|
                0 <= i < old(self).todos@.len() && #[trigger] old(self).todos@[i].id == todo_id
                    && old(self).todos@[i].user_id == user_id
                    && final(self).todos@ == old(self).todos@.remove(i),
            !r ==> *final(self) == *old(self),
            !final(self).has_todo(user_id, todo_id),
    {
        match self.index_of_id(todo_id) {
            Some(i) => {
                if self.todos[i].user_id == user_id {
                    let _ = self.todos.remove(i);
                    assert(todo_ids_unique(self.todos@) && titles_trimmed_nonempty(self.todos@)
                        && !self.has_todo(user_id, todo_id)) by {
                        assert(forall|k: int|
                            0 <= k < self.todos@.len() ==> self.todos@[k] == if k < i as int {
                                old(self).todos@[k]
                            } else {
                                old(self).todos@[k + 1]
                            });
                    }
                    true
                } else {
                    assert(!self.has_todo(user_id, todo_id)) by {
                        assert(forall|k: int|
                            0 <= k < self.todos@.len() && self.todos@[k].id == todo_id ==> k == i
                                as int);
                    }
                    false
                }
            },
            None => false,
        }
    }

    /// All rows owned by `user_id`, ordered by creation time descending.
    /// Exactly the user's rows come back: one output row for each stored row.
    pub fn list_todos(&self, user_id: u128) -> (r: Vec<TodoRecord>)
        requires
            self.wf(),
        ensures
            sorted_by_created_desc(r@),
            r@.to_multiset() == self.todos_of(user_id).to_multiset(),
            r@.len() == self.todos_of(user_id).len(),
            forall|i: int| 0 <= i < r@.len() ==> r@[i].user_id == user_id,
    {
        broadcast use group_to_multiset_ensures;

        let n = self.todos.len();
        let mut out: Vec<TodoRecord> = Vec::new();
        let mut i: usize = 0;
        proof {
            assert(self.todos@.subrange(0, 0).filter(|t: TodoRecord| t.user_id == user_id)
                =~= Seq::<TodoRecord>::empty());
        }
        while i < n
            invariant
                0 <= i <= n,
                n == self.todos@.len(),
                self.wf(),
                sorted_by_created_desc(out@),
                out@.to_multiset() == self.todos@.subrange(0, i as int).filter(
                    |t: TodoRecord| t.user_id == user_id,
                ).to_multiset(),
                forall|k: int| 0 <= k < out@.len() ==> out@[k].user_id == user_id,
            decreases n - i,
        {
            let ghost pre = self.todos@.subrange(0, i as int).filter(
                |t: TodoRecord| t.user_id == user_id,
            );
            proof {
                broadcast use group_to_multiset_ensures;

                let sub = self.todos@.subrange(0, i as int + 1);
                assert(sub.drop_last() =~= self.todos@.subrange(0, i as int));
                assert(sub.last() == self.todos@[i as int]);
                reveal_with_fuel(Seq::filter, 2);
                assert(sub.filter(|t: TodoRecord| t.user_id == user_id) == if self.todos@[i
                    as int].user_id == user_id {
                    pre.push(self.todos@[i as int])
                } else {
                    pre
                });
            }
            if self.todos[i].user_id == user_id {
                let rec = self.todos[i].clone();
                insert_sorted_desc(&mut out, rec);
            }
            i = i + 1;
        }
        proof {
            broadcast use group_to_multiset_ensures;

            assert(self.todos@.subrange(0, n as int) =~= self.todos@);
            assert(out@.to_multiset().len() == out@.len());
            assert(self.todos_of(user_id).to_multiset().len() == self.todos_of(user_id).len());
        }
        out
    }
}

/// Insert `x` into a sequence sorted by creation time descending, keeping
/// it sorted; the contents grow by exactly `x`.
fn insert_sorted_desc(v: &mut Vec<TodoRecord>, x: TodoRecord)
    requires
        sorted_by_created_desc(old(v)@),
    ensures
        sorted_by_created_desc(final(v)@),
        final(v)@.to_multiset() == old(v)@.to_multiset().insert(x),
        final(v)@.len() == old(v)@.len() + 1,
        forall|i: int|
            0 <= i < final(v)@.len() ==> old(v)@.contains(#[trigger] final(v)@[i]) || final(v)@[i]
                == x,
{
    broadcast use group_to_multiset_ensures;

    let n = v.len();
    let mut p: usize = 0;
    while p < n && v[p].created_at >= x.created_at
        invariant
            0 <= p <= n,
            n == v@.len(),
            forall|k: int| 0 <= k < p ==> v@[k].created_at >= x.created_at,
        decreases n - p,
    {
        p = p + 1;
    }
    v.insert(p, x);
    proof {
        let s = old(v)@;
        assert(forall|k: int|
            0 <= k < v@.len() ==> #[trigger] v@[k] == if k < p as int {
                s[k]
            } else if k == p as int {
                x
            } else {
                s[k - 1]
            });
        assert(v@.to_multiset() == s.to_multiset().insert(x));
    }
}

/// Ensuring the default user is idempotent: doing it twice with the same
/// identifier is the same as doing it once, and afterwards exactly one
/// user row carries that identifier.
pub proof fn lemma_ensure_default_user_idempotent(users: Seq<u128>, user_id: u128)
    requires
        user_ids_unique(users),
    ensures
        ensure_user_spec(ensure_user_spec(users, user_id), user_id) == ensure_user_spec(
            users,
            user_id,
        ),
        user_ids_unique(ensure_user_spec(users, user_id)),
        ensure_user_spec(users, user_id).to_multiset().count(user_id) == 1,
{
    broadcast use group_to_multiset_ensures;
    broadcast use vstd::multiset::group_multiset_axioms;

    let once = ensure_user_spec(users, user_id);
    if users.contains(user_id) {
        assert(once == users);
    } else {
        assert(once == users.push(user_id));
        assert(once[users.len() as int] == user_id);
        assert(once.contains(user_id));
        assert forall|i: int| 0 <= i < users.len() implies users[i] != user_id by {
            if users[i] == user_id {
                assert(users.contains(user_id));
            }
        }
        assert(user_ids_unique(once));
    }
    assert(once.contains(user_id));
    assert(ensure_user_spec(once, user_id) == once);
    assert(once.no_duplicates());
    once.lemma_multiset_has_no_duplicates();
    assert(once.to_multiset().count(user_id) > 0);
}

/// A partial update changes only the fields that are present in the
/// payload, plus `updated_at`; identity, owner and creation time never
/// change.
pub proof fn lemma_update_touches_only_present_fields(
    rec: TodoRecord,
    ch: UpdateTodoPayload,
    now: i64,
)
    ensures
        apply_update(rec, ch, now).id == rec.id,
        apply_update(rec, ch, now).user_id == rec.user_id,
        apply_update(rec, ch, now).created_at == rec.created_at,
        apply_update(rec, ch, now).updated_at == now,
        ch.title is None ==> apply_update(rec, ch, now).title == rec.title,
        ch.desc is None ==> apply_update(rec, ch, now).desc == rec.desc,
        ch.iscompleted is None ==> apply_update(rec, ch, now).iscompleted == rec.iscompleted,
{
}

} // verus!
