use cargo_agent::sink::{columns, csv_lines, header};
use cargo_agent::text::join;

fn row(items: &[&str]) -> Vec<String> {
    items.iter().map(|s| s.to_string()).collect()
}

fn append(destination: &mut Vec<String>, data: &Vec<Vec<String>>) {
    let lines = csv_lines(destination.is_empty(), data);
    destination.extend(lines);
}

#[test]
fn header_names_the_nine_columns() {
    assert_eq!(
        header(),
        "method,class,sourceProjectId,isDirectDependency,id,artefact,group,version,childIds"
    );
    assert_eq!(header().split(',').count(), 9);
}

#[test]
fn first_append_writes_the_header() {
    let data = vec![row(&["run", "LMain;", "p", "true", "i", "a", "g", "1", "x,y"])];
    assert_eq!(
        csv_lines(true, &data),
        vec![
            header(),
            "run,LMain;,p,true,i,a,g,1,x,y".to_string(),
        ]
    );
}

#[test]
fn later_append_writes_data_only() {
    let data = vec![row(&["a", "b"]), row(&["c"]), row(&[])];
    assert_eq!(
        csv_lines(false, &data),
        vec!["a,b".to_string(), "c".to_string(), String::new()]
    );
}

#[test]
fn append_of_nothing() {
    assert_eq!(csv_lines(true, &Vec::new()), vec![header()]);
    assert_eq!(csv_lines(false, &Vec::new()), Vec::<String>::new());
}

#[test]
fn header_once_however_the_records_are_split() {
    let records: Vec<Vec<String>> = (0..7)
        .map(|i| row(&[&format!("m{}", i), "LMain;", "p"]))
        .collect();

    let mut at_once: Vec<String> = Vec::new();
    append(&mut at_once, &records);

    let mut one_by_one: Vec<String> = Vec::new();
    for r in records.iter() {
        append(&mut one_by_one, &vec![r.clone()]);
    }

    let mut uneven: Vec<String> = Vec::new();
    append(&mut uneven, &records[0..3].to_vec());
    append(&mut uneven, &Vec::new());
    append(&mut uneven, &records[3..4].to_vec());
    append(&mut uneven, &records[4..7].to_vec());

    for destination in [&at_once, &one_by_one, &uneven] {
        assert_eq!(destination.len(), 1 + 7);
        assert_eq!(destination[0], header());
        assert_eq!(destination.iter().filter(|l| **l == header()).count(), 1);
        for i in 0..7 {
            assert_eq!(destination[1 + i], format!("m{},LMain;,p", i));
        }
    }
}

#[test]
fn header_is_the_columns_joined() {
    let names = columns();
    assert_eq!(
        names,
        row(&[
            "method",
            "class",
            "sourceProjectId",
            "isDirectDependency",
            "id",
            "artefact",
            "group",
            "version",
            "childIds",
        ])
    );
    assert_eq!(join(&names, ","), header());
}
