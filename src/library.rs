//! The sample catalog: three components and two documentation topics.

use vstd::prelude::*;
use crate::types::{ComponentExample, ComponentProp, Documentation, DocumentationSection,
    ReactComponent};

verus! {

/// The sample component `Button`, field by field.
pub open spec fn is_sample_button(c: ReactComponent) -> bool {
    &&& c.name@ == "Button"@
    &&& c.description@ == "A customizable button component with various styles and sizes"@
    &&& c.source_code@ == r#"import React from 'react';
import './Button.css';

interface ButtonProps {
  children: React.ReactNode;
  variant?: 'primary' | 'secondary' | 'danger';
  size?: 'small' | 'medium' | 'large';
  disabled?: boolean;
  onClick?: () => void;
  className?: string;
}

export const Button: React.FC<ButtonProps> = ({
  children,
  variant = 'primary',
  size = 'medium',
  disabled = false,
  onClick,
  className = '',
}) => {
  const baseClasses = 'btn';
  const variantClass = `btn--${variant}`;
  const sizeClass = `btn--${size}`;
  const disabledClass = disabled ? 'btn--disabled' : '';
  
  const classes = [baseClasses, variantClass, sizeClass, disabledClass, className]
    .filter(Boolean)
    .join(' ');

  return (
    <button
      className={classes}
      disabled={disabled}
      onClick={onClick}
      type="button"
    >
      {children}
    </button>
  );
};

export default Button;"#@
    &&& c.props@.len() == 5
    &&& c.props@[0].name@ == "children"@
    &&& c.props@[0].prop_type@ == "React.ReactNode"@
    &&& c.props@[0].required
    &&& c.props@[0].default_value@ == ""@
    &&& c.props@[0].description@ == "The content to display inside the button"@
    &&& c.props@[1].name@ == "variant"@
    &&& c.props@[1].prop_type@ == "'primary' | 'secondary' | 'danger'"@
    &&& !c.props@[1].required
    &&& c.props@[1].default_value@ == "'primary'"@
    &&& c.props@[1].description@ == "The visual style variant of the button"@
    &&& c.props@[2].name@ == "size"@
    &&& c.props@[2].prop_type@ == "'small' | 'medium' | 'large'"@
    &&& !c.props@[2].required
    &&& c.props@[2].default_value@ == "'medium'"@
    &&& c.props@[2].description@ == "The size of the button"@
    &&& c.props@[3].name@ == "disabled"@
    &&& c.props@[3].prop_type@ == "boolean"@
    &&& !c.props@[3].required
    &&& c.props@[3].default_value@ == "false"@
    &&& c.props@[3].description@ == "Whether the button is disabled"@
    &&& c.props@[4].name@ == "onClick"@
    &&& c.props@[4].prop_type@ == "() => void"@
    &&& !c.props@[4].required
    &&& c.props@[4].default_value@ == ""@
    &&& c.props@[4].description@ == "Function to call when button is clicked"@
    &&& c.examples@.len() == 3
    &&& c.examples@[0].title@ == "Basic Usage"@
    &&& c.examples@[0].description@ == "A simple primary button"@
    &&& c.examples@[0].code@ == r#"<Button onClick={() => console.log('clicked')}>
  Click me
</Button>"#@
    &&& c.examples@[0].props@.len() == 0
    &&& c.examples@[1].title@ == "Secondary Button"@
    &&& c.examples@[1].description@ == "A secondary variant button"@
    &&& c.examples@[1].code@ == r#"<Button variant="secondary" size="large">
  Secondary Action
</Button>"#@
    &&& c.examples@[1].props@.len() == 0
    &&& c.examples@[2].title@ == "Danger Button"@
    &&& c.examples@[2].description@ == "A danger variant for destructive actions"@
    &&& c.examples@[2].code@ == r#"<Button variant="danger" onClick={() => handleDelete()}>
  Delete Item
</Button>"#@
    &&& c.examples@[2].props@.len() == 0
    &&& c.category@ == "UI"@
    &&& c.tags@.len() == 3
    &&& c.tags@[0]@ == "button"@
    &&& c.tags@[1]@ == "interactive"@
    &&& c.tags@[2]@ == "form"@
    &&& c.typescript_definitions is Some
    &&& c.typescript_definitions->0@ == "export interface ButtonProps { ... }"@
}

fn sample_button() -> (r: ReactComponent)
    ensures
        is_sample_button(r),
{
    ReactComponent {
        name: String::from_str("Button"),
        description: String::from_str("A customizable button component with various styles and sizes"),
        source_code: String::from_str(r#"import React from 'react';
import './Button.css';

interface ButtonProps {
  children: React.ReactNode;
  variant?: 'primary' | 'secondary' | 'danger';
  size?: 'small' | 'medium' | 'large';
  disabled?: boolean;
  onClick?: () => void;
  className?: string;
}

export const Button: React.FC<ButtonProps> = ({
  children,
  variant = 'primary',
  size = 'medium',
  disabled = false,
  onClick,
  className = '',
}) => {
  const baseClasses = 'btn';
  const variantClass = `btn--${variant}`;
  const sizeClass = `btn--${size}`;
  const disabledClass = disabled ? 'btn--disabled' : '';
  
  const classes = [baseClasses, variantClass, sizeClass, disabledClass, className]
    .filter(Boolean)
    .join(' ');

  return (
    <button
      className={classes}
      disabled={disabled}
      onClick={onClick}
      type="button"
    >
      {children}
    </button>
  );
};

export default Button;"#),
        props: vec![
            ComponentProp {
                name: String::from_str("children"),
                prop_type: String::from_str("React.ReactNode"),
                required: true,
                default_value: String::from_str(""),
                description: String::from_str("The content to display inside the button"),
            },
            ComponentProp {
                name: String::from_str("variant"),
                prop_type: String::from_str("'primary' | 'secondary' | 'danger'"),
                required: false,
                default_value: String::from_str("'primary'"),
                description: String::from_str("The visual style variant of the button"),
            },
            ComponentProp {
                name: String::from_str("size"),
                prop_type: String::from_str("'small' | 'medium' | 'large'"),
                required: false,
                default_value: String::from_str("'medium'"),
                description: String::from_str("The size of the button"),
            },
            ComponentProp {
                name: String::from_str("disabled"),
                prop_type: String::from_str("boolean"),
                required: false,
                default_value: String::from_str("false"),
                description: String::from_str("Whether the button is disabled"),
            },
            ComponentProp {
                name: String::from_str("onClick"),
                prop_type: String::from_str("() => void"),
                required: false,
                default_value: String::from_str(""),
                description: String::from_str("Function to call when button is clicked"),
            },
        ],
        examples: vec![
            ComponentExample {
                title: String::from_str("Basic Usage"),
                description: String::from_str("A simple primary button"),
                code: String::from_str(r#"<Button onClick={() => console.log('clicked')}>
  Click me
</Button>"#),
                props: Vec::new(),
            },
            ComponentExample {
                title: String::from_str("Secondary Button"),
                description: String::from_str("A secondary variant button"),
                code: String::from_str(r#"<Button variant="secondary" size="large">
  Secondary Action
</Button>"#),
                props: Vec::new(),
            },
            ComponentExample {
                title: String::from_str("Danger Button"),
                description: String::from_str("A danger variant for destructive actions"),
                code: String::from_str(r#"<Button variant="danger" onClick={() => handleDelete()}>
  Delete Item
</Button>"#),
                props: Vec::new(),
            },
        ],
        category: String::from_str("UI"),
        tags: vec![String::from_str("button"), String::from_str("interactive"), String::from_str("form")],
        typescript_definitions: Some(String::from_str("export interface ButtonProps { ... }")),
    }
}

/// The sample component `Card`, field by field.
pub open spec fn is_sample_card(c: ReactComponent) -> bool {
    &&& c.name@ == "Card"@
    &&& c.description@ == "A flexible card component for displaying content with optional header and footer"@
    &&& c.source_code@ == r#"import React from 'react';
import './Card.css';

interface CardProps {
  children: React.ReactNode;
  title?: string;
  subtitle?: string;
  footer?: React.ReactNode;
  className?: string;
  elevation?: 'none' | 'low' | 'medium' | 'high';
}

export const Card: React.FC<CardProps> = ({
  children,
  title,
  subtitle,
  footer,
  className = '',
  elevation = 'medium',
}) => {
  const baseClasses = 'card';
  const elevationClass = `card--elevation-${elevation}`;
  const classes = [baseClasses, elevationClass, className]
    .filter(Boolean)
    .join(' ');

  return (
    <div className={classes}>
      {(title || subtitle) && (
        <div className="card__header">
          {title && <h3 className="card__title">{title}</h3>}
          {subtitle && <p className="card__subtitle">{subtitle}</p>}
        </div>
      )}
      <div className="card__content">
        {children}
      </div>
      {footer && (
        <div className="card__footer">
          {footer}
        </div>
      )}
    </div>
  );
};

export default Card;"#@
    &&& c.props@.len() == 3
    &&& c.props@[0].name@ == "children"@
    &&& c.props@[0].prop_type@ == "React.ReactNode"@
    &&& c.props@[0].required
    &&& c.props@[0].default_value@ == ""@
    &&& c.props@[0].description@ == "The main content of the card"@
    &&& c.props@[1].name@ == "title"@
    &&& c.props@[1].prop_type@ == "string"@
    &&& !c.props@[1].required
    &&& c.props@[1].default_value@ == ""@
    &&& c.props@[1].description@ == "Optional title for the card header"@
    &&& c.props@[2].name@ == "elevation"@
    &&& c.props@[2].prop_type@ == "'none' | 'low' | 'medium' | 'high'"@
    &&& !c.props@[2].required
    &&& c.props@[2].default_value@ == "'medium'"@
    &&& c.props@[2].description@ == "The shadow elevation level of the card"@
    &&& c.examples@.len() == 1
    &&& c.examples@[0].title@ == "Basic Card"@
    &&& c.examples@[0].description@ == "A simple card with title and content"@
    &&& c.examples@[0].code@ == r#"<Card title="Welcome" subtitle="Getting started">
  <p>This is the main content of the card.</p>
</Card>"#@
    &&& c.examples@[0].props@.len() == 0
    &&& c.category@ == "Layout"@
    &&& c.tags@.len() == 3
    &&& c.tags@[0]@ == "card"@
    &&& c.tags@[1]@ == "container"@
    &&& c.tags@[2]@ == "layout"@
    &&& c.typescript_definitions is Some
    &&& c.typescript_definitions->0@ == "export interface CardProps { ... }"@
}

fn sample_card() -> (r: ReactComponent)
    ensures
        is_sample_card(r),
{
    ReactComponent {
        name: String::from_str("Card"),
        description: String::from_str("A flexible card component for displaying content with optional header and footer"),
        source_code: String::from_str(r#"import React from 'react';
import './Card.css';

interface CardProps {
  children: React.ReactNode;
  title?: string;
  subtitle?: string;
  footer?: React.ReactNode;
  className?: string;
  elevation?: 'none' | 'low' | 'medium' | 'high';
}

export const Card: React.FC<CardProps> = ({
  children,
  title,
  subtitle,
  footer,
  className = '',
  elevation = 'medium',
}) => {
  const baseClasses = 'card';
  const elevationClass = `card--elevation-${elevation}`;
  const classes = [baseClasses, elevationClass, className]
    .filter(Boolean)
    .join(' ');

  return (
    <div className={classes}>
      {(title || subtitle) && (
        <div className="card__header">
          {title && <h3 className="card__title">{title}</h3>}
          {subtitle && <p className="card__subtitle">{subtitle}</p>}
        </div>
      )}
      <div className="card__content">
        {children}
      </div>
      {footer && (
        <div className="card__footer">
          {footer}
        </div>
      )}
    </div>
  );
};

export default Card;"#),
        props: vec![
            ComponentProp {
                name: String::from_str("children"),
                prop_type: String::from_str("React.ReactNode"),
                required: true,
                default_value: String::from_str(""),
                description: String::from_str("The main content of the card"),
            },
            ComponentProp {
                name: String::from_str("title"),
                prop_type: String::from_str("string"),
                required: false,
                default_value: String::from_str(""),
                description: String::from_str("Optional title for the card header"),
            },
            ComponentProp {
                name: String::from_str("elevation"),
                prop_type: String::from_str("'none' | 'low' | 'medium' | 'high'"),
                required: false,
                default_value: String::from_str("'medium'"),
                description: String::from_str("The shadow elevation level of the card"),
            },
        ],
        examples: vec![
            ComponentExample {
                title: String::from_str("Basic Card"),
                description: String::from_str("A simple card with title and content"),
                code: String::from_str(r#"<Card title="Welcome" subtitle="Getting started">
  <p>This is the main content of the card.</p>
</Card>"#),
                props: Vec::new(),
            },
        ],
        category: String::from_str("Layout"),
        tags: vec![String::from_str("card"), String::from_str("container"), String::from_str("layout")],
        typescript_definitions: Some(String::from_str("export interface CardProps { ... }")),
    }
}

/// The sample component `Input`, field by field.
pub open spec fn is_sample_input(c: ReactComponent) -> bool {
    &&& c.name@ == "Input"@
    &&& c.description@ == "A controlled input component with validation and various types"@
    &&& c.source_code@ == r#"import React from 'react';
import './Input.css';

interface InputProps {
  value: string;
  onChange: (value: string) => void;
  type?: 'text' | 'email' | 'password' | 'number';
  placeholder?: string;
  label?: string;
  error?: string;
  disabled?: boolean;
  required?: boolean;
  className?: string;
}

export const Input: React.FC<InputProps> = ({
  value,
  onChange,
  type = 'text',
  placeholder,
  label,
  error,
  disabled = false,
  required = false,
  className = '',
}) => {
  const inputId = React.useId();
  const hasError = Boolean(error);
  
  const inputClasses = [
    'input__field',
    hasError ? 'input__field--error' : '',
    disabled ? 'input__field--disabled' : '',
    className
  ].filter(Boolean).join(' ');

  return (
    <div className="input">
      {label && (
        <label htmlFor={inputId} className="input__label">
          {label}
          {required && <span className="input__required">*</span>}
        </label>
      )}
      <input
        id={inputId}
        type={type}
        value={value}
        onChange={(e) => onChange(e.target.value)}
        placeholder={placeholder}
        disabled={disabled}
        required={required}
        className={inputClasses}
        aria-invalid={hasError}
        aria-describedby={hasError ? `${inputId}-error` : undefined}
      />
      {error && (
        <span id={`${inputId}-error`} className="input__error">
          {error}
        </span>
      )}
    </div>
  );
};

export default Input;"#@
    &&& c.props@.len() == 3
    &&& c.props@[0].name@ == "value"@
    &&& c.props@[0].prop_type@ == "string"@
    &&& c.props@[0].required
    &&& c.props@[0].default_value@ == ""@
    &&& c.props@[0].description@ == "The current value of the input"@
    &&& c.props@[1].name@ == "onChange"@
    &&& c.props@[1].prop_type@ == "(value: string) => void"@
    &&& c.props@[1].required
    &&& c.props@[1].default_value@ == ""@
    &&& c.props@[1].description@ == "Function called when input value changes"@
    &&& c.props@[2].name@ == "type"@
    &&& c.props@[2].prop_type@ == "'text' | 'email' | 'password' | 'number'"@
    &&& !c.props@[2].required
    &&& c.props@[2].default_value@ == "'text'"@
    &&& c.props@[2].description@ == "The type of input field"@
    &&& c.examples@.len() == 1
    &&& c.examples@[0].title@ == "Basic Input"@
    &&& c.examples@[0].description@ == "A simple text input with label"@
    &&& c.examples@[0].code@ == r#"<Input
  value={inputValue}
  onChange={setInputValue}
  label="Your Name"
  placeholder="Enter your name"
/>"#@
    &&& c.examples@[0].props@.len() == 0
    &&& c.category@ == "Form"@
    &&& c.tags@.len() == 3
    &&& c.tags@[0]@ == "input"@
    &&& c.tags@[1]@ == "form"@
    &&& c.tags@[2]@ == "validation"@
    &&& c.typescript_definitions is Some
    &&& c.typescript_definitions->0@ == "export interface InputProps { ... }"@
}

fn sample_input() -> (r: ReactComponent)
    ensures
        is_sample_input(r),
{
    ReactComponent {
        name: String::from_str("Input"),
        description: String::from_str("A controlled input component with validation and various types"),
        source_code: String::from_str(r#"import React from 'react';
import './Input.css';

interface InputProps {
  value: string;
  onChange: (value: string) => void;
  type?: 'text' | 'email' | 'password' | 'number';
  placeholder?: string;
  label?: string;
  error?: string;
  disabled?: boolean;
  required?: boolean;
  className?: string;
}

export const Input: React.FC<InputProps> = ({
  value,
  onChange,
  type = 'text',
  placeholder,
  label,
  error,
  disabled = false,
  required = false,
  className = '',
}) => {
  const inputId = React.useId();
  const hasError = Boolean(error);
  
  const inputClasses = [
    'input__field',
    hasError ? 'input__field--error' : '',
    disabled ? 'input__field--disabled' : '',
    className
  ].filter(Boolean).join(' ');

  return (
    <div className="input">
      {label && (
        <label htmlFor={inputId} className="input__label">
          {label}
          {required && <span className="input__required">*</span>}
        </label>
      )}
      <input
        id={inputId}
        type={type}
        value={value}
        onChange={(e) => onChange(e.target.value)}
        placeholder={placeholder}
        disabled={disabled}
        required={required}
        className={inputClasses}
        aria-invalid={hasError}
        aria-describedby={hasError ? `${inputId}-error` : undefined}
      />
      {error && (
        <span id={`${inputId}-error`} className="input__error">
          {error}
        </span>
      )}
    </div>
  );
};

export default Input;"#),
        props: vec![
            ComponentProp {
                name: String::from_str("value"),
                prop_type: String::from_str("string"),
                required: true,
                default_value: String::from_str(""),
                description: String::from_str("The current value of the input"),
            },
            ComponentProp {
                name: String::from_str("onChange"),
                prop_type: String::from_str("(value: string) => void"),
                required: true,
                default_value: String::from_str(""),
                description: String::from_str("Function called when input value changes"),
            },
            ComponentProp {
                name: String::from_str("type"),
                prop_type: String::from_str("'text' | 'email' | 'password' | 'number'"),
                required: false,
                default_value: String::from_str("'text'"),
                description: String::from_str("The type of input field"),
            },
        ],
        examples: vec![
            ComponentExample {
                title: String::from_str("Basic Input"),
                description: String::from_str("A simple text input with label"),
                code: String::from_str(r#"<Input
  value={inputValue}
  onChange={setInputValue}
  label="Your Name"
  placeholder="Enter your name"
/>"#),
                props: Vec::new(),
            },
        ],
        category: String::from_str("Form"),
        tags: vec![String::from_str("input"), String::from_str("form"), String::from_str("validation")],
        typescript_definitions: Some(String::from_str("export interface InputProps { ... }")),
    }
}

/// The sample documentation topic `getting-started`, field by field.
pub open spec fn is_sample_getting_started(c: Documentation) -> bool {
    &&& c.topic@ == "getting-started"@
    &&& c.title@ == "Getting Started with React Components"@
    &&& c.content@ == "Welcome to our React component library! This guide will help you get started with using our components in your projects."@
    &&& c.sections@.len() == 2
    &&& c.sections@[0].id@ == "installation"@
    &&& c.sections@[0].title@ == "Installation"@
    &&& c.sections@[0].content@ == "Install the component library using npm or yarn:"@
    &&& c.sections@[0].code_examples@.len() == 2
    &&& c.sections@[0].code_examples@[0]@ == "npm install @yourorg/react-components"@
    &&& c.sections@[0].code_examples@[1]@ == "yarn add @yourorg/react-components"@
    &&& c.sections@[1].id@ == "usage"@
    &&& c.sections@[1].title@ == "Basic Usage"@
    &&& c.sections@[1].content@ == "Import and use components in your React application:"@
    &&& c.sections@[1].code_examples@.len() == 1
    &&& c.sections@[1].code_examples@[0]@ == r#"import { Button, Card, Input } from '@yourorg/react-components';

function App() {
  return (
    <div>
      <Card title="Welcome">
        <Input value="" onChange={() => {}} placeholder="Enter text" />
        <Button>Submit</Button>
      </Card>
    </div>
  );
}"#@
    &&& c.examples@.len() == 2
    &&& c.examples@[0]@ == "Basic component usage"@
    &&& c.examples@[1]@ == "Theming and customization"@
    &&& c.related_components@.len() == 3
    &&& c.related_components@[0]@ == "Button"@
    &&& c.related_components@[1]@ == "Card"@
    &&& c.related_components@[2]@ == "Input"@
}

fn sample_getting_started() -> (r: Documentation)
    ensures
        is_sample_getting_started(r),
{
    Documentation {
        topic: String::from_str("getting-started"),
        title: String::from_str("Getting Started with React Components"),
        content: String::from_str("Welcome to our React component library! This guide will help you get started with using our components in your projects."),
        sections: vec![
            DocumentationSection {
                id: String::from_str("installation"),
                title: String::from_str("Installation"),
                content: String::from_str("Install the component library using npm or yarn:"),
                code_examples: vec![
                    String::from_str("npm install @yourorg/react-components"),
                    String::from_str("yarn add @yourorg/react-components"),
                ],
            },
            DocumentationSection {
                id: String::from_str("usage"),
                title: String::from_str("Basic Usage"),
                content: String::from_str("Import and use components in your React application:"),
                code_examples: vec![
                    String::from_str(r#"import { Button, Card, Input } from '@yourorg/react-components';

function App() {
  return (
    <div>
      <Card title="Welcome">
        <Input value="" onChange={() => {}} placeholder="Enter text" />
        <Button>Submit</Button>
      </Card>
    </div>
  );
}"#),
                ],
            },
        ],
        examples: vec![
            String::from_str("Basic component usage"),
            String::from_str("Theming and customization"),
        ],
        related_components: vec![String::from_str("Button"), String::from_str("Card"), String::from_str("Input")],
    }
}

/// The sample documentation topic `theming`, field by field.
pub open spec fn is_sample_theming(c: Documentation) -> bool {
    &&& c.topic@ == "theming"@
    &&& c.title@ == "Theming and Customization"@
    &&& c.content@ == "Learn how to customize the appearance of components using CSS variables and custom themes."@
    &&& c.sections@.len() == 1
    &&& c.sections@[0].id@ == "css-variables"@
    &&& c.sections@[0].title@ == "CSS Variables"@
    &&& c.sections@[0].content@ == "Use CSS custom properties to customize component appearance:"@
    &&& c.sections@[0].code_examples@.len() == 1
    &&& c.sections@[0].code_examples@[0]@ == r#":root {
  --btn-primary-bg: #007bff;
  --btn-primary-color: white;
  --card-border-radius: 8px;
  --input-border-color: #ddd;
}"#@
    &&& c.examples@.len() == 2
    &&& c.examples@[0]@ == "Dark theme setup"@
    &&& c.examples@[1]@ == "Custom color schemes"@
    &&& c.related_components@.len() == 2
    &&& c.related_components@[0]@ == "Button"@
    &&& c.related_components@[1]@ == "Card"@
}

fn sample_theming() -> (r: Documentation)
    ensures
        is_sample_theming(r),
{
    Documentation {
        topic: String::from_str("theming"),
        title: String::from_str("Theming and Customization"),
        content: String::from_str("Learn how to customize the appearance of components using CSS variables and custom themes."),
        sections: vec![
            DocumentationSection {
                id: String::from_str("css-variables"),
                title: String::from_str("CSS Variables"),
                content: String::from_str("Use CSS custom properties to customize component appearance:"),
                code_examples: vec![
                    String::from_str(r#":root {
  --btn-primary-bg: #007bff;
  --btn-primary-color: white;
  --card-border-radius: 8px;
  --input-border-color: #ddd;
}"#),
                ],
            },
        ],
        examples: vec![String::from_str("Dark theme setup"), String::from_str("Custom color schemes")],
        related_components: vec![String::from_str("Button"), String::from_str("Card")],
    }
}

/// The sample components, keyed by name.
pub fn get_sample_components() -> (r: Vec<(String, ReactComponent)>)
    ensures
        r@.len() == 3,
        r@[0].0@ == "Button"@,
        is_sample_button(r@[0].1),
        r@[1].0@ == "Card"@,
        is_sample_card(r@[1].1),
        r@[2].0@ == "Input"@,
        is_sample_input(r@[2].1),
{
    let mut components: Vec<(String, ReactComponent)> = Vec::new();
    components.push((String::from_str("Button"), sample_button()));
    components.push((String::from_str("Card"), sample_card()));
    components.push((String::from_str("Input"), sample_input()));
    components
}

/// The sample documentation topics, keyed by topic.
pub fn get_sample_documentation() -> (r: Vec<(String, Documentation)>)
    ensures
        r@.len() == 2,
        r@[0].0@ == "getting-started"@,
        is_sample_getting_started(r@[0].1),
        r@[1].0@ == "theming"@,
        is_sample_theming(r@[1].1),
{
    let mut docs: Vec<(String, Documentation)> = Vec::new();
    docs.push((String::from_str("getting-started"), sample_getting_started()));
    docs.push((String::from_str("theming"), sample_theming()));
    docs
}

} // verus!
