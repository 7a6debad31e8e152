//! What can go wrong, and how it is worded.

use crate::http::{status_reason, status_shown, HttpStatus};
use crate::text::{decimal, join_texts, joined, texts};
use vstd::prelude::*;

verus! {

/// The failures that have a name of their own.
#[derive(Debug)]
pub enum LambdaError {
    ApiKeyNotSet,
    ApiKeyCommandFailed(String),
    InstanceTypeNotFound(String),
    NoRegionsAvailable(String),
    NoInstanceIds,
    ApiError(String),
    SshKeyRequired,
}

/// The calls that the API offers.
#[derive(Debug, Clone, Copy, PartialEq, Eq, Structural)]
pub enum Operation {
    ValidateApiKey,
    ListInstanceTypes,
    GetInstanceType,
    Launch,
    Terminate,
    ListRunningInstances,
    GetInstance,
    ListImages,
    ListFilesystems,
    CreateFilesystem,
    DeleteFilesystem,
}

/// The answers that are read.
#[derive(Debug, Clone, Copy, PartialEq, Eq, Structural)]
pub enum Document {
    InstanceTypeList,
    InstanceTypes,
    Launch,
    RunningInstances,
    InstanceDetails,
    Images,
    Filesystems,
    NewFilesystem,
}

/// A failed call.
#[derive(Debug)]
pub enum ClientError {
    /// A failure that has a name of its own.
    Lambda(LambdaError),
    /// The key cache could not be locked.
    Locked(String),
    /// The request did not reach the API.
    Unsent(Operation),
    /// The API refused the request.
    Refused { operation: Operation, status: HttpStatus, message: String },
    /// The answer was not of the expected form.
    Unreadable(Document),
    /// No image has the requested id.
    ImageIdNotFound(String),
    /// No image belongs to the requested family.
    ImageFamilyNotFound { family: String, families: Vec<String> },
    /// The requested region has no capacity for the instance type.
    RegionUnavailable { region: String, gpu: String, available: Vec<String> },
    /// The requested region does not offer the requested image.
    RegionWithoutImage { region: String, offered: Vec<String> },
    /// No region that offers the requested image has capacity for the instance type.
    NoCapacityForImage { offered: Vec<String>, gpu: String },
}

/// What a `LambdaError` holds, as texts.
pub enum LambdaFailure {
    ApiKeyNotSet,
    ApiKeyCommandFailed(Seq<char>),
    InstanceTypeNotFound(Seq<char>),
    NoRegionsAvailable(Seq<char>),
    NoInstanceIds,
    ApiError(Seq<char>),
    SshKeyRequired,
}

/// What a `ClientError` holds, as texts.
pub enum Failure {
    Lambda(LambdaFailure),
    Locked(Seq<char>),
    Unsent(Operation),
    Refused { operation: Operation, status: u16, message: Seq<char> },
    Unreadable(Document),
    ImageIdNotFound(Seq<char>),
    ImageFamilyNotFound { family: Seq<char>, families: Seq<Seq<char>> },
    RegionUnavailable { region: Seq<char>, gpu: Seq<char>, available: Seq<Seq<char>> },
    RegionWithoutImage { region: Seq<char>, offered: Seq<Seq<char>> },
    NoCapacityForImage { offered: Seq<Seq<char>>, gpu: Seq<char> },
}

impl View for LambdaError {
    type V = LambdaFailure;

    open spec fn view(&self) -> LambdaFailure {
        match *self {
            LambdaError::ApiKeyNotSet => LambdaFailure::ApiKeyNotSet,
            LambdaError::ApiKeyCommandFailed(reason) => LambdaFailure::ApiKeyCommandFailed(reason@),
            LambdaError::InstanceTypeNotFound(gpu) => LambdaFailure::InstanceTypeNotFound(gpu@),
            LambdaError::NoRegionsAvailable(gpu) => LambdaFailure::NoRegionsAvailable(gpu@),
            LambdaError::NoInstanceIds => LambdaFailure::NoInstanceIds,
            LambdaError::ApiError(reason) => LambdaFailure::ApiError(reason@),
            LambdaError::SshKeyRequired => LambdaFailure::SshKeyRequired,
        }
    }
}

impl View for ClientError {
    type V = Failure;

    open spec fn view(&self) -> Failure {
        match *self {
            ClientError::Lambda(error) => Failure::Lambda(error@),
            ClientError::Locked(reason) => Failure::Locked(reason@),
            ClientError::Unsent(operation) => Failure::Unsent(operation),
            ClientError::Refused { operation, status, message } => Failure::Refused {
                operation,
                status: status.number(),
                message: message@,
            },
            ClientError::Unreadable(document) => Failure::Unreadable(document),
            ClientError::ImageIdNotFound(id) => Failure::ImageIdNotFound(id@),
            ClientError::ImageFamilyNotFound { family, families } => Failure::ImageFamilyNotFound {
                family: family@,
                families: texts(families@),
            },
            ClientError::RegionUnavailable { region, gpu, available } =>
                Failure::RegionUnavailable {
                region: region@,
                gpu: gpu@,
                available: texts(available@),
            },
            ClientError::RegionWithoutImage { region, offered } => Failure::RegionWithoutImage {
                region: region@,
                offered: texts(offered@),
            },
            ClientError::NoCapacityForImage { offered, gpu } => Failure::NoCapacityForImage {
                offered: texts(offered@),
                gpu: gpu@,
            },
        }
    }
}

/// How a named failure is worded.
pub open spec fn lambda_wording(failure: LambdaFailure) -> Seq<char> {
    match failure {
        LambdaFailure::ApiKeyNotSet =>
            "API key not set. Set LAMBDA_API_KEY or LAMBDA_API_KEY_COMMAND environment variable"@,
        LambdaFailure::ApiKeyCommandFailed(reason) => "Failed to execute API key command: "@
            + reason,
        LambdaFailure::InstanceTypeNotFound(gpu) => "Instance type '"@ + gpu + "' not found"@,
        LambdaFailure::NoRegionsAvailable(gpu) => "No regions available for instance type '"@ + gpu
            + "'"@,
        LambdaFailure::NoInstanceIds => "No instance IDs returned from launch request"@,
        LambdaFailure::ApiError(reason) => "API request failed: "@ + reason,
        LambdaFailure::SshKeyRequired => "SSH key is required for this operation"@,
    }
}

/// How it is worded that a request did not reach the API.
pub open spec fn unsent_wording(operation: Operation) -> Seq<char> {
    match operation {
        Operation::ValidateApiKey => "Failed to connect to Lambda API"@,
        Operation::ListInstanceTypes => "Failed to fetch instance types"@,
        Operation::GetInstanceType => "Failed to fetch instance types"@,
        Operation::Launch => "Failed to send launch request"@,
        Operation::Terminate => "Failed to send terminate request"@,
        Operation::ListRunningInstances => "Failed to fetch running instances"@,
        Operation::GetInstance => "Failed to fetch instance details"@,
        Operation::ListImages => "Failed to fetch images"@,
        Operation::ListFilesystems => "Failed to fetch filesystems"@,
        Operation::CreateFilesystem => "Failed to create filesystem"@,
        Operation::DeleteFilesystem => "Failed to delete filesystem"@,
    }
}

/// How it is worded that an answer was not of the expected form.
pub open spec fn unreadable_wording(document: Document) -> Seq<char> {
    match document {
        Document::InstanceTypeList => "Failed to parse instance types response"@,
        Document::InstanceTypes => "Failed to parse instance types"@,
        Document::Launch => "Failed to parse launch response"@,
        Document::RunningInstances => "Failed to parse running instances response"@,
        Document::InstanceDetails => "Failed to parse instance details"@,
        Document::Images => "Failed to parse images response"@,
        Document::Filesystems => "Failed to parse filesystems response"@,
        Document::NewFilesystem => "Failed to parse create filesystem response"@,
    }
}

/// How it is worded that the API refused a call.
pub open spec fn refused_wording(operation: Operation) -> Seq<char> {
    match operation {
        Operation::ValidateApiKey => "API key validation failed"@,
        Operation::ListInstanceTypes => "Failed to list instances"@,
        Operation::GetInstanceType => "Failed to get instance types"@,
        Operation::Launch => "Failed to launch instance"@,
        Operation::Terminate => "Failed to terminate instance"@,
        Operation::ListRunningInstances => "Failed to list running instances"@,
        Operation::GetInstance => "Failed to get instance details"@,
        Operation::ListImages => "Failed to list images"@,
        Operation::ListFilesystems => "Failed to list filesystems"@,
        Operation::CreateFilesystem => "Failed to create filesystem"@,
        Operation::DeleteFilesystem => "Failed to delete filesystem"@,
    }
}

/// The refusals that are shown with their status.
pub open spec fn shows_status(operation: Operation) -> bool {
    operation == Operation::ValidateApiKey || operation == Operation::GetInstance
}

/// How a failed call is worded.
pub open spec fn wording(failure: Failure) -> Seq<char> {
    match failure {
        Failure::Lambda(failure) => lambda_wording(failure),
        Failure::Locked(reason) => "Failed to acquire lock: "@ + reason,
        Failure::Unsent(operation) => unsent_wording(operation),
        Failure::Refused { operation, status, message } => if shows_status(operation) {
            refused_wording(operation) + " ("@ + status_shown(status) + "): "@ + message
        } else {
            refused_wording(operation) + ": "@ + message
        },
        Failure::Unreadable(document) => unreadable_wording(document),
        Failure::ImageIdNotFound(id) => "Image id '"@ + id
            + "' not found. Run `lambda images` to see valid ids."@,
        Failure::ImageFamilyNotFound { family, families } => "Image family '"@ + family
            + "' not found. Available families: "@ + joined(families),
        Failure::RegionUnavailable { region, gpu, available } => "Region '"@ + region
            + "' is not available for instance type '"@ + gpu + "'. Available regions: "@ + joined(
            available,
        ),
        Failure::RegionWithoutImage { region, offered } => "Region '"@ + region
            + "' does not offer the requested image (available in: "@ + joined(offered) + ")"@,
        Failure::NoCapacityForImage { offered, gpu } => "The requested image is available in ["@
            + joined(offered) + "], but none of those regions currently have "@ + gpu
            + " capacity."@,
    }
}

impl LambdaError {
    /// The error in words.
    pub fn to_string(&self) -> (text: String)
        ensures
            text@ == lambda_wording(self@),
    {
        match self {
            LambdaError::ApiKeyNotSet =>
                "API key not set. Set LAMBDA_API_KEY or LAMBDA_API_KEY_COMMAND environment variable".to_owned(),
            LambdaError::ApiKeyCommandFailed(reason) => {
                let mut text = "Failed to execute API key command: ".to_owned();
                text.append(reason.as_str());
                text
            },
            LambdaError::InstanceTypeNotFound(gpu) => {
                let mut text = "Instance type '".to_owned();
                text.append(gpu.as_str());
                text.append("' not found");
                text
            },
            LambdaError::NoRegionsAvailable(gpu) => {
                let mut text = "No regions available for instance type '".to_owned();
                text.append(gpu.as_str());
                text.append("'");
                text
            },
            LambdaError::NoInstanceIds => "No instance IDs returned from launch request".to_owned(),
            LambdaError::ApiError(reason) => {
                let mut text = "API request failed: ".to_owned();
                text.append(reason.as_str());
                text
            },
            LambdaError::SshKeyRequired => "SSH key is required for this operation".to_owned(),
        }
    }
}

impl Operation {
    fn unsent_text(&self) -> (text: &'static str)
        ensures
            text@ == unsent_wording(*self),
    {
        match self {
            Operation::ValidateApiKey => "Failed to connect to Lambda API",
            Operation::ListInstanceTypes => "Failed to fetch instance types",
            Operation::GetInstanceType => "Failed to fetch instance types",
            Operation::Launch => "Failed to send launch request",
            Operation::Terminate => "Failed to send terminate request",
            Operation::ListRunningInstances => "Failed to fetch running instances",
            Operation::GetInstance => "Failed to fetch instance details",
            Operation::ListImages => "Failed to fetch images",
            Operation::ListFilesystems => "Failed to fetch filesystems",
            Operation::CreateFilesystem => "Failed to create filesystem",
            Operation::DeleteFilesystem => "Failed to delete filesystem",
        }
    }

    fn refused_text(&self) -> (text: &'static str)
        ensures
            text@ == refused_wording(*self),
    {
        match self {
            Operation::ValidateApiKey => "API key validation failed",
            Operation::ListInstanceTypes => "Failed to list instances",
            Operation::GetInstanceType => "Failed to get instance types",
            Operation::Launch => "Failed to launch instance",
            Operation::Terminate => "Failed to terminate instance",
            Operation::ListRunningInstances => "Failed to list running instances",
            Operation::GetInstance => "Failed to get instance details",
            Operation::ListImages => "Failed to list images",
            Operation::ListFilesystems => "Failed to list filesystems",
            Operation::CreateFilesystem => "Failed to create filesystem",
            Operation::DeleteFilesystem => "Failed to delete filesystem",
        }
    }
}

impl Document {
    fn unreadable_text(&self) -> (text: &'static str)
        ensures
            text@ == unreadable_wording(*self),
    {
        match self {
            Document::InstanceTypeList => "Failed to parse instance types response",
            Document::InstanceTypes => "Failed to parse instance types",
            Document::Launch => "Failed to parse launch response",
            Document::RunningInstances => "Failed to parse running instances response",
            Document::InstanceDetails => "Failed to parse instance details",
            Document::Images => "Failed to parse images response",
            Document::Filesystems => "Failed to parse filesystems response",
            Document::NewFilesystem => "Failed to parse create filesystem response",
        }
    }
}

impl ClientError {
    /// The error in words.
    pub fn to_string(&self) -> (text: String)
        ensures
            text@ == wording(self@),
    {
        match self {
            ClientError::Lambda(error) => error.to_string(),
            ClientError::Locked(reason) => {
                let mut text = "Failed to acquire lock: ".to_owned();
                text.append(reason.as_str());
                text
            },
            ClientError::Unsent(operation) => operation.unsent_text().to_owned(),
            ClientError::Refused { operation, status, message } => {
                let mut text = operation.refused_text().to_owned();
                if *operation == Operation::ValidateApiKey || *operation == Operation::GetInstance {
                    text.append(" (");
                    text.append(status.text().as_str());
                    text.append("): ");
                } else {
                    text.append(": ");
                }
                text.append(message.as_str());
                text
            },
            ClientError::Unreadable(document) => document.unreadable_text().to_owned(),
            ClientError::ImageIdNotFound(id) => {
                let mut text = "Image id '".to_owned();
                text.append(id.as_str());
                text.append("' not found. Run `lambda images` to see valid ids.");
                text
            },
            ClientError::ImageFamilyNotFound { family, families } => {
                let mut text = "Image family '".to_owned();
                text.append(family.as_str());
                text.append("' not found. Available families: ");
                text.append(join_texts(families).as_str());
                text
            },
            ClientError::RegionUnavailable { region, gpu, available } => {
                let mut text = "Region '".to_owned();
                text.append(region.as_str());
                text.append("' is not available for instance type '");
                text.append(gpu.as_str());
                text.append("'. Available regions: ");
                text.append(join_texts(available).as_str());
                text
            },
            ClientError::RegionWithoutImage { region, offered } => {
                let mut text = "Region '".to_owned();
                text.append(region.as_str());
                text.append("' does not offer the requested image (available in: ");
                text.append(join_texts(offered).as_str());
                text.append(")");
                text
            },
            ClientError::NoCapacityForImage { offered, gpu } => {
                let mut text = "The requested image is available in [".to_owned();
                text.append(join_texts(offered).as_str());
                text.append("], but none of those regions currently have ");
                text.append(gpu.as_str());
                text.append(" capacity.");
                text
            },
        }
    }
}

/// An error that names a GPU type, a command's failure or an API's message gives that very
/// text.
pub proof fn named_errors_give_their_text(text: String)
    ensures
        wording(ClientError::Lambda(LambdaError::ApiKeyCommandFailed(text))@)
            == "Failed to execute API key command: "@ + text@,
        wording(ClientError::Lambda(LambdaError::InstanceTypeNotFound(text))@)
            == "Instance type '"@ + text@ + "' not found"@,
        wording(ClientError::Lambda(LambdaError::NoRegionsAvailable(text))@)
            == "No regions available for instance type '"@ + text@ + "'"@,
        wording(ClientError::Lambda(LambdaError::ApiError(text))@) == "API request failed: "@
            + text@,
        wording(ClientError::Locked(text)@) == "Failed to acquire lock: "@ + text@,
        wording(ClientError::ImageIdNotFound(text)@) == "Image id '"@ + text@
            + "' not found. Run `lambda images` to see valid ids."@,
        lambda_wording(LambdaError::ApiKeyCommandFailed(text)@)
            == "Failed to execute API key command: "@ + text@,
        lambda_wording(LambdaError::InstanceTypeNotFound(text)@) == "Instance type '"@ + text@
            + "' not found"@,
        lambda_wording(LambdaError::NoRegionsAvailable(text)@)
            == "No regions available for instance type '"@ + text@ + "'"@,
        lambda_wording(LambdaError::ApiError(text)@) == "API request failed: "@ + text@,
{
}

/// An error about a region or a family gives what was asked for, and all that would have
/// been possible instead.
pub proof fn region_and_family_errors_give_the_choice(
    asked: String,
    gpu: String,
    possible: Vec<String>,
)
    ensures
        wording(
            ClientError::ImageFamilyNotFound { family: asked, families: possible }@,
        ) == "Image family '"@ + asked@ + "' not found. Available families: "@ + joined(
            texts(possible@),
        ),
        wording(
            ClientError::RegionUnavailable { region: asked, gpu, available: possible }@,
        ) == "Region '"@ + asked@ + "' is not available for instance type '"@ + gpu@
            + "'. Available regions: "@ + joined(texts(possible@)),
        wording(
            ClientError::RegionWithoutImage { region: asked, offered: possible }@,
        ) == "Region '"@ + asked@ + "' does not offer the requested image (available in: "@
            + joined(texts(possible@)) + ")"@,
        wording(ClientError::NoCapacityForImage { offered: possible, gpu }@)
            == "The requested image is available in ["@ + joined(texts(possible@))
            + "], but none of those regions currently have "@ + gpu@ + " capacity."@,
{
}

/// A refusal ends with the message that it carries, and shows its status exactly for the
/// validation of a key and for the details of an instance.
pub proof fn refusal_ends_with_its_message(
    operation: Operation,
    status: HttpStatus,
    message: String,
)
    ensures
        ({
            let shown = wording(ClientError::Refused { operation, status, message }@);
            let code = decimal(status.number() as nat) + " "@ + status_reason(status.number());
            &&& operation == Operation::ValidateApiKey ==> shown == "API key validation failed"@
                + " ("@ + code + "): "@ + message@
            &&& operation == Operation::GetInstance ==> shown == "Failed to get instance details"@
                + " ("@ + code + "): "@ + message@
            &&& operation != Operation::ValidateApiKey && operation != Operation::GetInstance
                ==> shown == refused_wording(operation) + ": "@ + message@
        }),
{
}

} // verus!
