use oav_lib::generators::{builtin_client_generators, builtin_server_generators};
use oav_lib::references::{generator_references, modified_references, ReferenceFile};

fn refs() -> Vec<ReferenceFile> {
    generator_references()
}

#[test]
fn references_cover_every_builtin_server_first() {
    let r = refs();
    let server = builtin_server_generators();
    let client = builtin_client_generators();
    assert_eq!(r.len(), server.len() + client.len());
    assert_eq!(r[0].rel, "generators/server/spring.yaml");
    assert_eq!(r[0].dir, "generators/server");
    assert_eq!(r[0].contents, server[0].config_yaml);
    let first_client = &r[server.len()];
    assert_eq!(first_client.dir, "generators/client");
    assert_eq!(
        first_client.rel,
        format!("generators/client/{}.yaml", client[0].name)
    );
    assert_eq!(first_client.contents, client[0].config_yaml);
}

#[test]
fn unchanged_references_are_not_reported() {
    let r = refs();
    let disk: Vec<Option<Vec<u8>>> = r.iter().map(|x| Some(x.contents.as_bytes().to_vec())).collect();
    let files: Vec<String> = r.iter().map(|x| x.rel.clone()).collect();
    assert!(modified_references(&r, &disk, &files).is_empty());
}

#[test]
fn missing_references_are_not_reported() {
    let r = refs();
    let disk: Vec<Option<Vec<u8>>> = r.iter().map(|_| None).collect();
    assert!(modified_references(&r, &disk, &Vec::new()).is_empty());
}

#[test]
fn edited_reference_is_reported() {
    let r = refs();
    let mut disk: Vec<Option<Vec<u8>>> =
        r.iter().map(|x| Some(x.contents.as_bytes().to_vec())).collect();
    disk[0] = Some(b"generatorName: spring\n# tweaked\n".to_vec());
    let files: Vec<String> = r.iter().map(|x| x.rel.clone()).collect();
    assert_eq!(
        modified_references(&r, &disk, &files),
        vec!["generators/server/spring.yaml".to_string()]
    );
}

#[test]
fn extra_files_are_reported_sorted() {
    let r = refs();
    let mut disk: Vec<Option<Vec<u8>>> =
        r.iter().map(|x| Some(x.contents.as_bytes().to_vec())).collect();
    disk[1] = Some(Vec::new());
    let files = vec![
        "generators/server/zzz.yaml".to_string(),
        "generators/client/aaa.yaml".to_string(),
        r[0].rel.clone(),
    ];
    let mut expected = vec![
        r[1].rel.clone(),
        "generators/server/zzz.yaml".to_string(),
        "generators/client/aaa.yaml".to_string(),
    ];
    expected.sort();
    assert_eq!(modified_references(&r, &disk, &files), expected);
}
