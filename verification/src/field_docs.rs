//! Documentation shown on hover for the fields of Apple device-management
//! JSON files: DEP enrollment profiles and DDM declarations.
use vstd::prelude::*;

verus! {

/// Documentation of one JSON field, looked up by `key` (a dotted path or a
/// bare name).
#[derive(Debug, Clone, Copy)]
pub struct FieldDoc {
    pub key: &'static str,
    pub name: &'static str,
    pub description: &'static str,
    pub field_type: &'static str,
    pub example: Option<&'static str>,
}
/// Documentation for Apple DEP (Device Enrollment Program) profile fields.
pub open spec fn dep_field_docs_spec() -> Seq<FieldDoc> {
    seq![
        FieldDoc {
            key: "profile_name",
            name: "profile_name",
            description: "A human-readable name for the DEP enrollment profile.",
            field_type: "string",
            example: Some("\"profile_name\": \"Automatic enrollment profile\""),
        },
        FieldDoc {
            key: "url",
            name: "url",
            description: "The URL of the MDM server that the device will enroll with. Fleet populates this automatically.",
            field_type: "string",
            example: None,
        },
        FieldDoc {
            key: "allow_pairing",
            name: "allow_pairing",
            description: "If `true`, the device can be paired with a host computer (e.g. via USB). Set to `false` for kiosk or shared devices.",
            field_type: "boolean",
            example: Some("\"allow_pairing\": true"),
        },
        FieldDoc {
            key: "is_supervised",
            name: "is_supervised",
            description: "If `true`, the device is enrolled in **supervised mode**, enabling additional management capabilities (app restrictions, single-app mode, lost mode, etc.). Recommended for organization-owned devices.",
            field_type: "boolean",
            example: Some("\"is_supervised\": true"),
        },
        FieldDoc {
            key: "is_mandatory",
            name: "is_mandatory",
            description: "If `true`, the user cannot skip MDM enrollment during Setup Assistant. The device must enroll before it can be used.",
            field_type: "boolean",
            example: Some("\"is_mandatory\": true"),
        },
        FieldDoc {
            key: "is_mdm_removable",
            name: "is_mdm_removable",
            description: "If `true`, the MDM profile can be removed by the device user. Set to `false` to prevent users from unenrolling managed devices.",
            field_type: "boolean",
            example: Some("\"is_mdm_removable\": false"),
        },
        FieldDoc {
            key: "auto_advance_setup",
            name: "auto_advance_setup",
            description: "If `true`, Setup Assistant screens are automatically advanced without user interaction. Used for zero-touch deployment.",
            field_type: "boolean",
            example: Some("\"auto_advance_setup\": true"),
        },
        FieldDoc {
            key: "await_device_configured",
            name: "await_device_configured",
            description: "If `true`, the device waits at the \"Configuring...\" screen until the MDM server sends the `DeviceConfigured` command. Useful for ensuring all profiles and apps are installed before the user reaches the home screen.",
            field_type: "boolean",
            example: Some("\"await_device_configured\": true"),
        },
        FieldDoc {
            key: "language",
            name: "language",
            description: "The [ISO 639-1](https://en.wikipedia.org/wiki/List_of_ISO_639-1_codes) language code for Setup Assistant (e.g. `en`, `de`, `ja`).",
            field_type: "string",
            example: Some("\"language\": \"en\""),
        },
        FieldDoc {
            key: "region",
            name: "region",
            description: "The [ISO 3166-1 alpha-2](https://en.wikipedia.org/wiki/ISO_3166-1_alpha-2) region code for Setup Assistant (e.g. `US`, `DE`, `GB`).",
            field_type: "string",
            example: Some("\"region\": \"US\""),
        },
        FieldDoc {
            key: "org_magic",
            name: "org_magic",
            description: "An arbitrary string that the MDM server can use to identify the enrollment profile. Often set to a static value like `\"1\"`.",
            field_type: "string",
            example: Some("\"org_magic\": \"1\""),
        },
        FieldDoc {
            key: "department",
            name: "department",
            description: "The department or group name shown during Setup Assistant enrollment.",
            field_type: "string",
            example: Some("\"department\": \"IT\""),
        },
        FieldDoc {
            key: "support_phone_number",
            name: "support_phone_number",
            description: "IT support phone number displayed during Setup Assistant enrollment.",
            field_type: "string",
            example: Some("\"support_phone_number\": \"+1-555-0100\""),
        },
        FieldDoc {
            key: "support_email_address",
            name: "support_email_address",
            description: "IT support email address displayed during Setup Assistant enrollment.",
            field_type: "string",
            example: Some("\"support_email_address\": \"it@example.com\""),
        },
        FieldDoc {
            key: "skip_setup_items",
            name: "skip_setup_items",
            description: "An array of Setup Assistant panes to skip during enrollment. Each string identifies a pane to bypass.\n\n[Source: apple/device-management](https://github.com/apple/device-management/blob/main/other/skipkeys.yaml)\n\n| Key | Pane | Platforms |\n|---|---|---|\n| `Accessibility` | Accessibility (new-user login only) | macOS 11+ |\n| `ActionButton` | Action Button configuration | iOS 17+ |\n| `Android` | Remove \"Move from Android\" option | iOS 9+ |\n| `Appearance` | Choose Your Look (light/dark) | iOS 13+ / macOS 10.14+ |\n| `AppleID` | Apple Account sign-in | iOS 7+ / macOS 10.9+ |\n| `AppStore` | App Store pane | iOS 14.3+ / macOS 11.1+ |\n| `Biometric` | Touch ID / Face ID setup | iOS 8.1+ / macOS 10.12.4+ |\n| `CameraButton` | Camera Control pane | iOS 18+ |\n| `DeviceToDeviceMigration` | Device-to-device migration | iOS 12.4+ |\n| `Diagnostics` | App Analytics | iOS 7+ / macOS 10.9+ |\n| `DisplayTone` | True Tone display | iOS 9.3.2–15 / macOS 10.13.6–12 |\n| `EnableLockdownMode` | Lockdown Mode | iOS 17.1+ / macOS 14+ |\n| `FileVault` | FileVault disk encryption | macOS 10.10+ |\n| `iCloudDiagnostics` | iCloud Analytics | macOS 10.12.4+ |\n| `iCloudStorage` | iCloud Documents & Desktop | macOS 10.13.4+ |\n| `iMessageAndFaceTime` | iMessage and FaceTime | iOS 12+ |\n| `Intelligence` | Apple Intelligence | iOS 18+ / macOS 15+ |\n| `Location` | Location Services | iOS 7+ / macOS 10.11+ |\n| `Multitasking` | Multitasking | iOS 26+ |\n| `OSShowcase` | OS Showcase pane | iOS 26+ / macOS 26.1+ |\n| `Passcode` | Passcode setup | iOS 7+ / macOS 10.9+ |\n| `Payment` | Apple Pay | iOS 8.1+ / macOS 10.12.4+ |\n| `Privacy` | Privacy consent | iOS 11.3+ / macOS 10.13.4+ |\n| `Restore` | Restore from backup | iOS 7+ / macOS 10.9+ |\n| `Safety` | Safety pane | iOS 16+ |\n| `ScreenTime` | Screen Time | iOS 12+ / macOS 10.15+ |\n| `SIMSetup` | Add cellular plan (eSIM) | iOS 12+ |\n| `Siri` | Siri | iOS 7+ / macOS 10.12+ |\n| `SoftwareUpdate` | Mandatory software update | iOS 12+ / macOS 15.4+ |\n| `TermsOfAddress` | Preferred pronouns | iOS 16+ / macOS 13+ |\n| `TOS` | Terms and Conditions | iOS 7+ / macOS 10.9+ |\n| `UnlockWithWatch` | Unlock with Apple Watch | macOS 15+ |\n| `Welcome` | Get Started pane | iOS 13+ / macOS 15+ |\n| `WebContentFiltering` | Web Content Filtering | iOS 18.2+ |",
            field_type: "array of strings",
            example: Some("\"skip_setup_items\": [\"AppleID\", \"Siri\", \"Payment\"]"),
        },
    ]
}

/// Documentation for Apple DEP (Device Enrollment Program) profile fields.
pub fn dep_field_docs() -> (r: Vec<FieldDoc>)
    ensures
        r@ == dep_field_docs_spec(),
{
    let mut v: Vec<FieldDoc> = Vec::new();
    v.push(
        FieldDoc {
                key: "profile_name",
                name: "profile_name",
                description: "A human-readable name for the DEP enrollment profile.",
                field_type: "string",
                example: Some("\"profile_name\": \"Automatic enrollment profile\""),
            },
    );
    v.push(
        FieldDoc {
                key: "url",
                name: "url",
                description: "The URL of the MDM server that the device will enroll with. Fleet populates this automatically.",
                field_type: "string",
                example: None,
            },
    );
    v.push(
        FieldDoc {
                key: "allow_pairing",
                name: "allow_pairing",
                description: "If `true`, the device can be paired with a host computer (e.g. via USB). Set to `false` for kiosk or shared devices.",
                field_type: "boolean",
                example: Some("\"allow_pairing\": true"),
            },
    );
    v.push(
        FieldDoc {
                key: "is_supervised",
                name: "is_supervised",
                description: "If `true`, the device is enrolled in **supervised mode**, enabling additional management capabilities (app restrictions, single-app mode, lost mode, etc.). Recommended for organization-owned devices.",
                field_type: "boolean",
                example: Some("\"is_supervised\": true"),
            },
    );
    v.push(
        FieldDoc {
                key: "is_mandatory",
                name: "is_mandatory",
                description: "If `true`, the user cannot skip MDM enrollment during Setup Assistant. The device must enroll before it can be used.",
                field_type: "boolean",
                example: Some("\"is_mandatory\": true"),
            },
    );
    v.push(
        FieldDoc {
                key: "is_mdm_removable",
                name: "is_mdm_removable",
                description: "If `true`, the MDM profile can be removed by the device user. Set to `false` to prevent users from unenrolling managed devices.",
                field_type: "boolean",
                example: Some("\"is_mdm_removable\": false"),
            },
    );
    v.push(
        FieldDoc {
                key: "auto_advance_setup",
                name: "auto_advance_setup",
                description: "If `true`, Setup Assistant screens are automatically advanced without user interaction. Used for zero-touch deployment.",
                field_type: "boolean",
                example: Some("\"auto_advance_setup\": true"),
            },
    );
    v.push(
        FieldDoc {
                key: "await_device_configured",
                name: "await_device_configured",
                description: "If `true`, the device waits at the \"Configuring...\" screen until the MDM server sends the `DeviceConfigured` command. Useful for ensuring all profiles and apps are installed before the user reaches the home screen.",
                field_type: "boolean",
                example: Some("\"await_device_configured\": true"),
            },
    );
    v.push(
        FieldDoc {
                key: "language",
                name: "language",
                description: "The [ISO 639-1](https://en.wikipedia.org/wiki/List_of_ISO_639-1_codes) language code for Setup Assistant (e.g. `en`, `de`, `ja`).",
                field_type: "string",
                example: Some("\"language\": \"en\""),
            },
    );
    v.push(
        FieldDoc {
                key: "region",
                name: "region",
                description: "The [ISO 3166-1 alpha-2](https://en.wikipedia.org/wiki/ISO_3166-1_alpha-2) region code for Setup Assistant (e.g. `US`, `DE`, `GB`).",
                field_type: "string",
                example: Some("\"region\": \"US\""),
            },
    );
    v.push(
        FieldDoc {
                key: "org_magic",
                name: "org_magic",
                description: "An arbitrary string that the MDM server can use to identify the enrollment profile. Often set to a static value like `\"1\"`.",
                field_type: "string",
                example: Some("\"org_magic\": \"1\""),
            },
    );
    v.push(
        FieldDoc {
                key: "department",
                name: "department",
                description: "The department or group name shown during Setup Assistant enrollment.",
                field_type: "string",
                example: Some("\"department\": \"IT\""),
            },
    );
    v.push(
        FieldDoc {
                key: "support_phone_number",
                name: "support_phone_number",
                description: "IT support phone number displayed during Setup Assistant enrollment.",
                field_type: "string",
                example: Some("\"support_phone_number\": \"+1-555-0100\""),
            },
    );
    v.push(
        FieldDoc {
                key: "support_email_address",
                name: "support_email_address",
                description: "IT support email address displayed during Setup Assistant enrollment.",
                field_type: "string",
                example: Some("\"support_email_address\": \"it@example.com\""),
            },
    );
    v.push(
        FieldDoc {
                key: "skip_setup_items",
                name: "skip_setup_items",
                description: "An array of Setup Assistant panes to skip during enrollment. Each string identifies a pane to bypass.\n\n[Source: apple/device-management](https://github.com/apple/device-management/blob/main/other/skipkeys.yaml)\n\n| Key | Pane | Platforms |\n|---|---|---|\n| `Accessibility` | Accessibility (new-user login only) | macOS 11+ |\n| `ActionButton` | Action Button configuration | iOS 17+ |\n| `Android` | Remove \"Move from Android\" option | iOS 9+ |\n| `Appearance` | Choose Your Look (light/dark) | iOS 13+ / macOS 10.14+ |\n| `AppleID` | Apple Account sign-in | iOS 7+ / macOS 10.9+ |\n| `AppStore` | App Store pane | iOS 14.3+ / macOS 11.1+ |\n| `Biometric` | Touch ID / Face ID setup | iOS 8.1+ / macOS 10.12.4+ |\n| `CameraButton` | Camera Control pane | iOS 18+ |\n| `DeviceToDeviceMigration` | Device-to-device migration | iOS 12.4+ |\n| `Diagnostics` | App Analytics | iOS 7+ / macOS 10.9+ |\n| `DisplayTone` | True Tone display | iOS 9.3.2–15 / macOS 10.13.6–12 |\n| `EnableLockdownMode` | Lockdown Mode | iOS 17.1+ / macOS 14+ |\n| `FileVault` | FileVault disk encryption | macOS 10.10+ |\n| `iCloudDiagnostics` | iCloud Analytics | macOS 10.12.4+ |\n| `iCloudStorage` | iCloud Documents & Desktop | macOS 10.13.4+ |\n| `iMessageAndFaceTime` | iMessage and FaceTime | iOS 12+ |\n| `Intelligence` | Apple Intelligence | iOS 18+ / macOS 15+ |\n| `Location` | Location Services | iOS 7+ / macOS 10.11+ |\n| `Multitasking` | Multitasking | iOS 26+ |\n| `OSShowcase` | OS Showcase pane | iOS 26+ / macOS 26.1+ |\n| `Passcode` | Passcode setup | iOS 7+ / macOS 10.9+ |\n| `Payment` | Apple Pay | iOS 8.1+ / macOS 10.12.4+ |\n| `Privacy` | Privacy consent | iOS 11.3+ / macOS 10.13.4+ |\n| `Restore` | Restore from backup | iOS 7+ / macOS 10.9+ |\n| `Safety` | Safety pane | iOS 16+ |\n| `ScreenTime` | Screen Time | iOS 12+ / macOS 10.15+ |\n| `SIMSetup` | Add cellular plan (eSIM) | iOS 12+ |\n| `Siri` | Siri | iOS 7+ / macOS 10.12+ |\n| `SoftwareUpdate` | Mandatory software update | iOS 12+ / macOS 15.4+ |\n| `TermsOfAddress` | Preferred pronouns | iOS 16+ / macOS 13+ |\n| `TOS` | Terms and Conditions | iOS 7+ / macOS 10.9+ |\n| `UnlockWithWatch` | Unlock with Apple Watch | macOS 15+ |\n| `Welcome` | Get Started pane | iOS 13+ / macOS 15+ |\n| `WebContentFiltering` | Web Content Filtering | iOS 18.2+ |",
                field_type: "array of strings",
                example: Some("\"skip_setup_items\": [\"AppleID\", \"Siri\", \"Payment\"]"),
            },
    );
    assert(v@ =~= dep_field_docs_spec());
    v
}

/// Documentation for Apple Declarative Device Management (DDM) declaration fields.
pub open spec fn ddm_field_docs_spec() -> Seq<FieldDoc> {
    seq![
        FieldDoc {
            key: "Type",
            name: "Type",
            description: "The declaration type identifier. This is a reverse-DNS string that specifies which configuration is being declared.\n\n**Common types:**\n- `com.apple.configuration.softwareupdate.enforcement.specific` — Enforce a specific OS version\n- `com.apple.configuration.passcode.settings` — Passcode requirements\n- `com.apple.configuration.screensharing.connection.group` — Screen sharing\n- `com.apple.configuration.management.status-subscriptions` — Status subscriptions",
            field_type: "string (reverse-DNS)",
            example: Some("\"Type\": \"com.apple.configuration.softwareupdate.enforcement.specific\""),
        },
        FieldDoc {
            key: "Identifier",
            name: "Identifier",
            description: "A unique identifier for this declaration, typically in reverse-DNS format. Must be unique across all declarations managed by the MDM server.",
            field_type: "string (reverse-DNS)",
            example: Some("\"Identifier\": \"com.example.config.softwareupdate\""),
        },
        FieldDoc {
            key: "ServerToken",
            name: "ServerToken",
            description: "An opaque token used by the server to track declaration versions. The server updates this value whenever the declaration changes, allowing the device to detect updates.",
            field_type: "string",
            example: None,
        },
        FieldDoc {
            key: "Payload",
            name: "Payload",
            description: "The declaration-specific payload object. The structure depends on the `Type` field. Contains the actual configuration settings for this declaration.",
            field_type: "object",
            example: Some("\"Payload\": {\n  \"TargetOSVersion\": \"15.0\"\n}"),
        },
        FieldDoc {
            key: "Payload.TargetOSVersion",
            name: "TargetOSVersion",
            description: "The target OS version to enforce (e.g. `\"15.0\"`, `\"26.4\"`). The device will be prompted to update to this version. Use the marketing version number.",
            field_type: "string",
            example: Some("\"TargetOSVersion\": \"15.0\""),
        },
        FieldDoc {
            key: "Payload.TargetBuildVersion",
            name: "TargetBuildVersion",
            description: "The target build version to enforce (e.g. `\"25E246\"`). More precise than `TargetOSVersion` — ensures the exact build is installed. Find build numbers at [Apple support](https://support.apple.com/en-us/100100).",
            field_type: "string",
            example: Some("\"TargetBuildVersion\": \"25E246\""),
        },
        FieldDoc {
            key: "Payload.TargetLocalDateTime",
            name: "TargetLocalDateTime",
            description: "The local date and time by which the update must be installed (`ISO 8601`). After this deadline, the device will force-install the update. The user receives increasingly urgent notifications as the deadline approaches.",
            field_type: "string (ISO 8601)",
            example: Some("\"TargetLocalDateTime\": \"2026-07-12T13:50:00\""),
        },
        FieldDoc {
            key: "Payload.DetailsURL",
            name: "DetailsURL",
            description: "A URL shown to the user in the update notification. Typically links to release notes or an internal IT page explaining why the update is required.",
            field_type: "string (URL)",
            example: Some("\"DetailsURL\": \"https://support.apple.com/en-us/100100\""),
        },
        FieldDoc {
            key: "Payload.MaxFailedAttempts",
            name: "MaxFailedAttempts",
            description: "Maximum number of failed passcode attempts before the device is wiped or locked. Typical values: `6`–`11`.",
            field_type: "integer",
            example: Some("\"MaxFailedAttempts\": 10"),
        },
        FieldDoc {
            key: "Payload.MaxInactivity",
            name: "MaxInactivity",
            description: "Maximum number of minutes of inactivity before the device auto-locks. Use `0` for no auto-lock restriction.",
            field_type: "integer (minutes)",
            example: Some("\"MaxInactivity\": 5"),
        },
        FieldDoc {
            key: "Payload.MaxPINAgeInDays",
            name: "MaxPINAgeInDays",
            description: "Maximum age of the passcode in days before the user must change it. Use `0` for no expiration.",
            field_type: "integer (days)",
            example: Some("\"MaxPINAgeInDays\": 90"),
        },
        FieldDoc {
            key: "Payload.MinLength",
            name: "MinLength",
            description: "Minimum length of the device passcode. Apple default is `0` (no minimum).",
            field_type: "integer",
            example: Some("\"MinLength\": 6"),
        },
        FieldDoc {
            key: "Payload.RequireAlphanumeric",
            name: "RequireAlphanumeric",
            description: "If `true`, the passcode must contain both letters and numbers (not just digits).",
            field_type: "boolean",
            example: Some("\"RequireAlphanumeric\": true"),
        },
    ]
}

/// Documentation for Apple Declarative Device Management (DDM) declaration fields.
pub fn ddm_field_docs() -> (r: Vec<FieldDoc>)
    ensures
        r@ == ddm_field_docs_spec(),
{
    let mut v: Vec<FieldDoc> = Vec::new();
    v.push(
        FieldDoc {
                key: "Type",
                name: "Type",
                description: "The declaration type identifier. This is a reverse-DNS string that specifies which configuration is being declared.\n\n**Common types:**\n- `com.apple.configuration.softwareupdate.enforcement.specific` — Enforce a specific OS version\n- `com.apple.configuration.passcode.settings` — Passcode requirements\n- `com.apple.configuration.screensharing.connection.group` — Screen sharing\n- `com.apple.configuration.management.status-subscriptions` — Status subscriptions",
                field_type: "string (reverse-DNS)",
                example: Some("\"Type\": \"com.apple.configuration.softwareupdate.enforcement.specific\""),
            },
    );
    v.push(
        FieldDoc {
                key: "Identifier",
                name: "Identifier",
                description: "A unique identifier for this declaration, typically in reverse-DNS format. Must be unique across all declarations managed by the MDM server.",
                field_type: "string (reverse-DNS)",
                example: Some("\"Identifier\": \"com.example.config.softwareupdate\""),
            },
    );
    v.push(
        FieldDoc {
                key: "ServerToken",
                name: "ServerToken",
                description: "An opaque token used by the server to track declaration versions. The server updates this value whenever the declaration changes, allowing the device to detect updates.",
                field_type: "string",
                example: None,
            },
    );
    v.push(
        FieldDoc {
                key: "Payload",
                name: "Payload",
                description: "The declaration-specific payload object. The structure depends on the `Type` field. Contains the actual configuration settings for this declaration.",
                field_type: "object",
                example: Some("\"Payload\": {\n  \"TargetOSVersion\": \"15.0\"\n}"),
            },
    );
    v.push(
        FieldDoc {
                key: "Payload.TargetOSVersion",
                name: "TargetOSVersion",
                description: "The target OS version to enforce (e.g. `\"15.0\"`, `\"26.4\"`). The device will be prompted to update to this version. Use the marketing version number.",
                field_type: "string",
                example: Some("\"TargetOSVersion\": \"15.0\""),
            },
    );
    v.push(
        FieldDoc {
                key: "Payload.TargetBuildVersion",
                name: "TargetBuildVersion",
                description: "The target build version to enforce (e.g. `\"25E246\"`). More precise than `TargetOSVersion` — ensures the exact build is installed. Find build numbers at [Apple support](https://support.apple.com/en-us/100100).",
                field_type: "string",
                example: Some("\"TargetBuildVersion\": \"25E246\""),
            },
    );
    v.push(
        FieldDoc {
                key: "Payload.TargetLocalDateTime",
                name: "TargetLocalDateTime",
                description: "The local date and time by which the update must be installed (`ISO 8601`). After this deadline, the device will force-install the update. The user receives increasingly urgent notifications as the deadline approaches.",
                field_type: "string (ISO 8601)",
                example: Some("\"TargetLocalDateTime\": \"2026-07-12T13:50:00\""),
            },
    );
    v.push(
        FieldDoc {
                key: "Payload.DetailsURL",
                name: "DetailsURL",
                description: "A URL shown to the user in the update notification. Typically links to release notes or an internal IT page explaining why the update is required.",
                field_type: "string (URL)",
                example: Some("\"DetailsURL\": \"https://support.apple.com/en-us/100100\""),
            },
    );
    v.push(
        FieldDoc {
                key: "Payload.MaxFailedAttempts",
                name: "MaxFailedAttempts",
                description: "Maximum number of failed passcode attempts before the device is wiped or locked. Typical values: `6`–`11`.",
                field_type: "integer",
                example: Some("\"MaxFailedAttempts\": 10"),
            },
    );
    v.push(
        FieldDoc {
                key: "Payload.MaxInactivity",
                name: "MaxInactivity",
                description: "Maximum number of minutes of inactivity before the device auto-locks. Use `0` for no auto-lock restriction.",
                field_type: "integer (minutes)",
                example: Some("\"MaxInactivity\": 5"),
            },
    );
    v.push(
        FieldDoc {
                key: "Payload.MaxPINAgeInDays",
                name: "MaxPINAgeInDays",
                description: "Maximum age of the passcode in days before the user must change it. Use `0` for no expiration.",
                field_type: "integer (days)",
                example: Some("\"MaxPINAgeInDays\": 90"),
            },
    );
    v.push(
        FieldDoc {
                key: "Payload.MinLength",
                name: "MinLength",
                description: "Minimum length of the device passcode. Apple default is `0` (no minimum).",
                field_type: "integer",
                example: Some("\"MinLength\": 6"),
            },
    );
    v.push(
        FieldDoc {
                key: "Payload.RequireAlphanumeric",
                name: "RequireAlphanumeric",
                description: "If `true`, the passcode must contain both letters and numbers (not just digits).",
                field_type: "boolean",
                example: Some("\"RequireAlphanumeric\": true"),
            },
    );
    assert(v@ =~= ddm_field_docs_spec());
    v
}

} // verus!
