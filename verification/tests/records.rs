use provisioner::records::{
    Claims, ClaimsError, CreateClusterResponse, GroupMemberships, GroupOwnerships,
};

#[test]
fn group_wrappers_keep_their_groups() {
    let owned = GroupOwnerships::new(vec!["admins".to_string(), "ops".to_string()]);
    assert_eq!(owned.0, vec!["admins".to_string(), "ops".to_string()]);
    let member = GroupMemberships::new(vec!["devs".to_string()]);
    assert_eq!(member.0, vec!["devs".to_string()]);
}

#[test]
fn claims_carry_their_fields() {
    let claims = Claims {
        sub: "user@example".to_string(),
        exp: 1_700_000_000,
        user_id: "u1".to_string(),
        token_type: "access".to_string(),
        first_name: None,
        last_name: None,
        middle_name: None,
        client_id: "portal".to_string(),
    };
    assert_eq!(claims.user_id, "u1");
    assert_eq!(claims.exp, 1_700_000_000);
    let missing = ClaimsError::Missing;
    assert!(matches!(missing, ClaimsError::Missing));
}

#[test]
fn creation_response_carries_the_identifier() {
    let response = CreateClusterResponse {
        message: "Cluster created successfully".to_string(),
        id: 12,
        identifier: "c1".to_string(),
    };
    assert_eq!(response.id, 12);
    assert_eq!(response.identifier, "c1");
}
