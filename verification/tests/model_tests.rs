use teacher_system::errors::ApiError;
use teacher_system::model::ContractType;
use teacher_system::model::Enrollment;
use teacher_system::model::EnrollmentStatus;
use teacher_system::model::StudentStatus;
use teacher_system::model::User;

fn user(contract: Option<ContractType>, student: Option<StudentStatus>) -> User {
    User {
        id: "u1".to_string(),
        code: "2023-001".to_string(),
        email: Some("someone@example.edu".to_string()),
        phone: None,
        faculty: "Engineering".to_string(),
        program: "Systems".to_string(),
        specialty: "Software".to_string(),
        role: "staff".to_string(),
        student_status: student,
        admission_date: None,
        contract_type: contract,
        max_hours_per_week: Some(20),
        hire_date: Some("2020-02-01".to_string()),
        full_name: "A. Person".to_string(),
    }
}

#[test]
fn user_with_contract_is_a_teacher() {
    assert!(user(Some(ContractType::FullTime), None).is_teacher());
    assert!(user(Some(ContractType::PartTime), None).is_teacher());
}

#[test]
fn user_without_contract_is_not_a_teacher() {
    assert!(!user(None, Some(StudentStatus::Active)).is_teacher());
}

#[test]
fn api_error_maps_to_http_status() {
    assert_eq!(ApiError::NotFound("missing".to_string()).status_code(), 404);
    assert_eq!(ApiError::BadRequest("bad".to_string()).status_code(), 400);
    assert_eq!(
        ApiError::InternalServerError("boom".to_string()).status_code(),
        500
    );
}

#[test]
fn api_error_keeps_its_message() {
    let e = ApiError::NotFound("course not found".to_string());
    assert_eq!(e.message(), "course not found");
}

#[test]
fn enrollment_holds_its_fields() {
    let e = Enrollment {
        id: "e1".to_string(),
        student_id: "s1".to_string(),
        course_id: "c1".to_string(),
        status: EnrollmentStatus::Active,
    };
    assert_eq!(e.status, EnrollmentStatus::Active);
    assert_eq!(e.course_id, "c1".to_string());
}
