use mkcontent::site::manifest::SiteManifest;
use mkcontent::site::Site;

#[test]
fn site_from_its_description() {
    assert_eq!(
        Site::parse("name = \"Blog\"\nintroduction = \"Words.\"\nextra = 3\n"),
        Some(Site { name: String::from("Blog"), introduction: String::from("Words.") })
    );
}

#[test]
fn a_description_needs_both_strings() {
    assert_eq!(Site::parse("name = \"Blog\"\n"), None);
    assert_eq!(Site::parse("introduction = \"Words.\"\n"), None);
    assert_eq!(Site::parse("name = 1\nintroduction = \"Words.\"\n"), None);
    assert_eq!(Site::parse("name = \"Blog\"\nintroduction = []\n"), None);
    assert_eq!(Site::parse("name = \n"), None);
    assert_eq!(Site::parse(""), None);
}

#[test]
fn site_manifest() {
    let mut manifest = SiteManifest::new();
    assert_eq!(manifest.get("blog"), None);
    let one = Site { name: String::from("One"), introduction: String::from("1") };
    let two = Site { name: String::from("Two"), introduction: String::from("2") };
    manifest.insert(String::from("blog"), one);
    manifest.insert(String::from("blog"), two.clone());
    manifest.insert(String::from("wiki"), two.clone());
    assert_eq!(manifest.get("blog"), Some(&two));
    assert_eq!(manifest.get("wiki"), Some(&two));
    assert_eq!(manifest.0.len(), 2);
}
