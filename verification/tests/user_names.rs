use shared_tree::user_names::{UserName, UserNames};

#[test]
fn test_add_user_name() {
    let mut uns = UserNames::new();
    {
        let un1 = UserName::new("test");
        uns.add_user_name0(un1);
    }
    {
        let un1 = UserName::new("test");
        uns.add_user_name0(un1.clone());
        println!("{:?}", un1)
    }
    assert_eq!(format!("{:?}", uns), "UserNames([UserName(\"test\"), UserName(\"test\")])");
}

#[test]
fn only_the_first_way_of_adding_changes_the_list() {
    let mut names = UserNames::new();
    assert_eq!(format!("{:?}", names), "UserNames([])");
    names.add_user_name1(UserName::new("ignored"));
    assert_eq!(format!("{:?}", names), "UserNames([])");
    names.add_user_name0(UserName::new("kept"));
    assert_eq!(format!("{:?}", names), "UserNames([UserName(\"kept\")])");
    let copy = names.clone();
    copy.add_user_name2(UserName::new("lost"));
    assert_eq!(format!("{:?}", names), "UserNames([UserName(\"kept\")])");
}
