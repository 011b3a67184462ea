//! Field and select lists of one record type agree.
#![allow(dead_code)]

use sql_tool::{
    fields_clause, select_clause, Directive, FieldDescriptor, FieldsAttributeMacro,
    SelectAttributeMacro,
};

pub struct SelectStruct {
    pub id: i32,
    pub phone: String,
    pub name: String,
    pub email: String,
    pub description: Option<String>,
}

impl SelectAttributeMacro for SelectStruct {
    fn generate_select_clause() -> Vec<String> {
        select_clause(&vec![
            FieldDescriptor::new("id", false),
            FieldDescriptor::new("phone", false).with_select(Directive::new().ignored()),
            FieldDescriptor::new("name", false).with_select(Directive::new().renamed("user_name")),
            FieldDescriptor::new("email", false),
            FieldDescriptor::new("description", true),
        ])
    }
}

pub struct FieldsStruct {
    pub id: i32,
    pub phone: String,
    pub name: String,
    pub email: String,
    pub description: Option<String>,
}

impl FieldsAttributeMacro for FieldsStruct {
    fn generate_fields_clause() -> Vec<String> {
        fields_clause(&vec![
            FieldDescriptor::new("id", false),
            FieldDescriptor::new("phone", false).with_fields(Directive::new().ignored()),
            FieldDescriptor::new("name", false).with_fields(Directive::new().renamed("user_name")),
            FieldDescriptor::new("email", false),
            FieldDescriptor::new("description", true),
        ])
    }
}

#[test]
fn accuracy_test() {
    let select_data = vec![
        "id".to_string(),
        "user_name".to_string(),
        "email".to_string(),
        "description".to_string(),
    ];
    assert_eq!(select_data, SelectStruct::generate_select_clause());
    assert_eq!(select_data, FieldsStruct::generate_fields_clause());
}
