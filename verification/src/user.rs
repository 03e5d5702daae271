//! Users, their colors and where their cursors are.
use vstd::prelude::*;

use crate::text::owned;

verus! {

/// Minimal fields for a user.
#[derive(Clone, Debug, Default)]
pub struct Account {
    pub name: String,
    pub color: String,
}

/// Where a user's cursor is: a table, a row and a column.
#[derive(Debug, PartialEq, Eq)]
pub struct Cursor {
    pub table: String,
    pub row: u64,
    pub column: String,
}

/// The model of a cursor.
pub struct CursorView {
    pub table: Seq<char>,
    pub row: u64,
    pub column: Seq<char>,
}

impl View for Cursor {
    type V = CursorView;

    open spec fn view(&self) -> CursorView {
        CursorView { table: self.table@, row: self.row, column: self.column@ }
    }
}

/// The cursor that a user has before they move it: row 1 of the `table` column of the
/// `table` table.
pub open spec fn default_cursor() -> CursorView {
    CursorView { table: "table"@, row: 1, column: "table"@ }
}

impl Clone for Cursor {
    fn clone(&self) -> (r: Self)
        ensures
            r@ == self@,
    {
        Cursor { table: self.table.clone(), row: self.row, column: self.column.clone() }
    }
}

impl Default for Cursor {
    fn default() -> (r: Self)
        ensures
            r@ == default_cursor(),
    {
        Cursor { table: owned("table"), row: 1, column: owned("table") }
    }
}

/// A user with a color, a cursor and the time the cursor was last moved.
#[derive(Clone, Debug, PartialEq, Eq)]
pub struct UserCursor {
    pub name: String,
    pub color: String,
    pub cursor: Cursor,
    pub datetime: String,
}

/// True for a color written `#rrggbb` in lower-case hexadecimal digits.
pub open spec fn is_hex_color(s: Seq<char>) -> bool {
    &&& s.len() == 7
    &&& s[0] == '#'
    &&& forall|i: int| 1 <= i < 7 ==> ('0' <= #[trigger] s[i] <= '9' || 'a' <= s[i] <= 'f')
}

/// `random_color::RandomColor::new().to_hex()`: a color drawn at random, written `#rrggbb`
/// (the crate formats each of the three bytes as two lower-case hexadecimal digits).
/// Which color comes out is left unsaid: it depends on a random seed.
#[verifier::external_body]
fn random_hex_color() -> (r: String)
    ensures
        is_hex_color(r@),
{
    random_color::RandomColor::new().to_hex()
}

impl UserCursor {
    /// A new user with the given name, a random color, the default cursor and no time.
    pub fn new(username: &str) -> (r: Self)
        ensures
            r.name@ == username@,
            is_hex_color(r.color@),
            r.cursor@ == default_cursor(),
            r.datetime@ == Seq::<char>::empty(),
    {
        let color = random_hex_color();
        UserCursor { name: owned(username), color, cursor: Cursor::default(), datetime: String::new() }
    }
}

impl From<UserCursor> for Account {
    fn from(user: UserCursor) -> (r: Account) {
        Account { name: user.name, color: user.color }
    }
}

impl vstd::std_specs::convert::FromSpecImpl<UserCursor> for Account {
    open spec fn obeys_from_spec() -> bool {
        true
    }

    open spec fn from_spec(user: UserCursor) -> Account {
        Account { name: user.name, color: user.color }
    }
}

} // verus!

verus! {

/// The statement that reads a user by name, the name being its parameter.
pub const USER_GET_SQL: &'static str = "SELECT name, color, cursor, TEXT(datetime) AS datetime FROM \"user\" WHERE name = $1 LIMIT 1";
/// The statement that moves a user's cursor, the cursor's JSON text and the user's name
/// being its parameters.
pub const USER_UPDATE_CURSOR_SQL: &'static str = "UPDATE \"user\"\n               SET \"cursor\" = $1, \"datetime\" = CURRENT_TIMESTAMP\n               WHERE \"name\" = $2";
/// The statement that lists the users.
pub const USER_LIST_SQL: &'static str = "SELECT * FROM \"user\"";

/// The JSON object of a cursor: its table, row and column.
pub open spec fn cursor_json(c: CursorView) -> crate::json::Json {
    crate::json::Json::Obj(seq![
        ("table"@, crate::json::Json::Str(c.table)),
        ("row"@, crate::json::Json::Int(c.row as int)),
        ("column"@, crate::json::Json::Str(c.column)),
    ])
}

impl Cursor {
    /// The JSON object of the cursor (see [cursor_json]).
    pub fn to_json(&self) -> (r: crate::json::JsonValue)
        ensures
            r@ == cursor_json(self@),
    {
        let mut fields: Vec<(String, crate::json::JsonValue)> = Vec::new();
        fields.push((owned("table"), crate::json::json_str(self.table.as_str())));
        fields.push((owned("row"), crate::json::json_u64(self.row)));
        fields.push((owned("column"), crate::json::json_str(self.column.as_str())));
        let r = crate::json::JsonValue::Object(fields);
        assert(r@ == cursor_json(self@)) by {
            if let crate::json::Json::Obj(e) = r@ {
                assert(e =~= seq![
                    ("table"@, crate::json::Json::Str(self.table@)),
                    ("row"@, crate::json::Json::Int(self.row as int)),
                    ("column"@, crate::json::Json::Str(self.column@)),
                ]);
            }
        }
        r
    }
}

/// The table of users, their colors and cursors.
#[derive(Debug)]
pub struct UserTable {
    table_name: String,
}

impl UserTable {
    /// The user table, named `user`.
    pub fn connect() -> (r: Self)
        ensures
            r.name() == "user"@,
    {
        UserTable { table_name: owned("user") }
    }

    /// The table's name.
    pub closed spec fn name(&self) -> Seq<char> {
        self.table_name@
    }

    /// The table's name.
    pub fn table_name(&self) -> (r: &String)
        ensures
            r@ == self.name(),
    {
        &self.table_name
    }

    /// The user of that name among those read, the last one where there are several; or,
    /// where there is none, a new user of that name (see [UserCursor::new]), with `true`
    /// for a user to be added to the table.
    pub fn found_or_new(users: Vec<UserCursor>, username: &str) -> (r: (UserCursor, bool))
        ensures
            users@.len() > 0 ==> r == (users@.last(), false),
            users@.len() == 0 ==> r.1 && r.0.name@ == username@ && is_hex_color(r.0.color@)
                && r.0.cursor@ == default_cursor() && r.0.datetime@ == Seq::<char>::empty(),
    {
        let mut users = users;
        match users.pop() {
            Some(user) => (user, false),
            None => (UserCursor::new(username), true),
        }
    }

    /// The parameters of [USER_UPDATE_CURSOR_SQL]: the cursor's JSON text and the user's name.
    pub fn update_cursor_params(username: &str, cursor: &Cursor) -> (r: Vec<String>)
        ensures
            crate::text::views(r@) == seq![crate::json::json_text_spec(cursor_json(cursor@)), username@],
    {
        let json = cursor.to_json();
        let text = crate::json::json_to_text(&json);
        let mut params: Vec<String> = Vec::new();
        params.push(text);
        params.push(owned(username));
        assert(crate::text::views(params@) =~= seq![crate::json::json_text_spec(cursor_json(cursor@)), username@]);
        params
    }
}

} // verus!
