use cali::store::{insert_query, Ensnarable, Snare};

struct Account {
    name: String,
}

impl Ensnarable for Account {
    fn insert_parts(&self) -> (String, String) {
        ("name, email".to_string(), "?, ?".to_string())
    }
}

#[test]
fn writes_insert_statement() {
    assert_eq!(insert_query("accounts", "id, name", "?, ?"), "INSERT INTO accounts (id, name) VALUES (?, ?)");
}

#[test]
fn snare_keeps_the_statement_it_writes() {
    let mut snare = Snare {
        query: String::new(),
        table_name: "accounts".to_string(),
        data: Account { name: "ada".to_string() },
    };
    let q = snare.insert();
    assert_eq!(q, "INSERT INTO accounts (name, email) VALUES (?, ?)");
    assert_eq!(snare.query, q);
    assert_eq!(snare.table_name, "accounts");
    assert_eq!(snare.data.name, "ada");
}
